//! Pasting an image into a temporary file, with the ways to fall back on where
//! the clipboard gives none. The states tell what to do next; each outcome
//! leads to the next state.
use crate::outside::unicode;
use crate::paste::capture;
use crate::paste::image_info::EncodedImageFormat;
use crate::paste::image_info::PasteErrorKind;
use crate::paste::image_info::PasteErrorView;
use crate::paste::image_info::PasteImageError;
use crate::paste::image_info::PastedImageInfo;
use crate::paste::windows_path;
use crate::paste::wl_paste;
use crate::paste::wsl;
use crate::path::LocalPath;
use crate::text;
use vstd::prelude::*;
use vstd::utf8::*;

verus! {

/// What the machine offers.
#[derive(Debug, Clone, Copy)]
pub struct PasteHost {
    /// Whether it runs Linux; only there anything is tried after the clipboard.
    pub linux: bool,
    /// Whether the session is a Wayland one.
    pub wayland_session: bool,
    /// Whether it is taken for WSL.
    pub wsl: bool,
}

/// An image file that is to be saved.
pub struct TempImage {
    pub bytes: Vec<u8>,
    pub info: PastedImageInfo,
}

/// What a command left.
pub struct CommandOutput {
    pub success: bool,
    pub stdout: Vec<u8>,
}

/// The script that saves the clipboard image of Windows in a PNG file and prints
/// its path. The output is forced to UTF-8, which not every PowerShell writes by
/// default.
pub const DUMP_SCRIPT: &'static str =
    "[Console]::OutputEncoding = [System.Text.Encoding]::UTF8; $img = Get-Clipboard -Format Image; if ($img -ne $null) { $p=[System.IO.Path]::GetTempFileName(); $p = [System.IO.Path]::ChangeExtension($p,'png'); $img.Save($p,[System.Drawing.Imaging.ImageFormat]::Png); Write-Output $p } else { exit 1 }";

/// What is to be done next.
pub enum PasteState {
    /// Save the image from the clipboard in a temporary file.
    SavingCapture { image: TempImage },
    /// Have `wl-paste` list the types that it offers.
    ListingTypes { error: PasteImageError },
    /// Have `wl-paste` print the image of a type.
    PastingType { mime: String, error: PasteImageError },
    /// Save the image from `wl-paste` in a temporary file.
    SavingPayload { image: TempImage, error: PasteImageError },
    /// Have Windows dump its clipboard image, by one of the commands that may
    /// start PowerShell.
    DumpingWindows { next: usize, error: PasteImageError },
    /// Read the size of the image at a path.
    ReadingSize { path: LocalPath, error: PasteImageError },
    /// Nothing more; this is the result.
    Done { result: Result<(LocalPath, PastedImageInfo), PasteImageError> },
}

/// What came of what was to be done.
pub enum PasteEvent {
    /// A temporary file was kept at a path, or could not be, with the reason.
    Saved(Result<LocalPath, String>),
    /// The command ran, or could not be started.
    CommandRan(Option<CommandOutput>),
    /// The size of the image at the path, if it can be read.
    Size(Option<(u32, u32)>),
}

/// The contents of a state.
pub enum PasteView {
    SavingCapture { bytes: Seq<u8>, info: PastedImageInfo },
    ListingTypes { error: PasteErrorView },
    PastingType { mime: Seq<char>, error: PasteErrorView },
    SavingPayload { bytes: Seq<u8>, info: PastedImageInfo, error: PasteErrorView },
    DumpingWindows { next: int, error: PasteErrorView },
    ReadingSize { path: Seq<u8>, error: PasteErrorView },
    Done { result: Result<(Seq<u8>, PastedImageInfo), PasteErrorView> },
}

/// The contents of an event.
pub enum PasteEventView {
    Saved(Result<Seq<u8>, Seq<char>>),
    CommandRan(Option<(bool, Seq<u8>)>),
    Size(Option<(u32, u32)>),
}

/// The contents of a result.
pub open spec fn result_view(
    r: Result<(LocalPath, PastedImageInfo), PasteImageError>,
) -> Result<(Seq<u8>, PastedImageInfo), PasteErrorView> {
    match r {
        Ok((path, info)) => Ok((path@, info)),
        Err(e) => Err(e@),
    }
}

impl View for PasteState {
    type V = PasteView;

    open spec fn view(&self) -> PasteView {
        match self {
            PasteState::SavingCapture { image } => PasteView::SavingCapture {
                bytes: image.bytes@,
                info: image.info,
            },
            PasteState::ListingTypes { error } => PasteView::ListingTypes { error: error@ },
            PasteState::PastingType { mime, error } => PasteView::PastingType {
                mime: mime@,
                error: error@,
            },
            PasteState::SavingPayload { image, error } => PasteView::SavingPayload {
                bytes: image.bytes@,
                info: image.info,
                error: error@,
            },
            PasteState::DumpingWindows { next, error } => PasteView::DumpingWindows {
                next: *next as int,
                error: error@,
            },
            PasteState::ReadingSize { path, error } => PasteView::ReadingSize {
                path: path@,
                error: error@,
            },
            PasteState::Done { result } => PasteView::Done { result: result_view(*result) },
        }
    }
}

impl View for PasteEvent {
    type V = PasteEventView;

    open spec fn view(&self) -> PasteEventView {
        match self {
            PasteEvent::Saved(r) => PasteEventView::Saved(
                match r {
                    Ok(path) => Ok(path@),
                    Err(e) => Err(e@),
                },
            ),
            PasteEvent::CommandRan(output) => PasteEventView::CommandRan(
                match output {
                    Some(output) => Some((output.success, output.stdout@)),
                    None => None,
                },
            ),
            PasteEvent::Size(size) => PasteEventView::Size(*size),
        }
    }
}

/// Whether an error leaves it open that another way finds an image.
pub open spec fn may_fall_back(kind: PasteErrorKind) -> bool {
    kind is ClipboardUnavailable || kind is NoImage
}

/// The type to ask `wl-paste` for, from what its listing left.
pub open spec fn chosen_type(ran: Option<(bool, Seq<u8>)>) -> Option<Seq<char>> {
    match ran {
        Some((success, stdout)) => if success {
            wl_paste::first_listed(wl_paste::image_types(), unicode::lossy_text(stdout))
        } else {
            None
        },
        None => None,
    }
}

/// The image that `wl-paste` printed, if it is none without bytes.
pub open spec fn printed_image(ran: Option<(bool, Seq<u8>)>) -> Option<Seq<u8>> {
    match ran {
        Some((success, stdout)) => if success && stdout.len() > 0 {
            Some(stdout)
        } else {
            None
        },
        None => None,
    }
}

/// The Windows path that the dump script printed.
pub open spec fn dumped_path(ran: Option<(bool, Seq<u8>)>) -> Option<Seq<char>> {
    match ran {
        Some((success, stdout)) => wsl::printed_path(success, unicode::lossy_text(stdout)),
        None => None,
    }
}

/// The state of a paste that failed for good.
pub open spec fn failed(error: PasteErrorView) -> PasteView {
    PasteView::Done { result: Err(error) }
}

/// What follows where the Wayland fallback gave nothing: the Windows one, where
/// it can help.
pub open spec fn after_wayland(error: PasteErrorView, host: PasteHost) -> PasteView {
    if host.wsl && may_fall_back(error.kind) {
        PasteView::DumpingWindows { next: 0, error }
    } else {
        failed(error)
    }
}

/// What follows the capture of the clipboard.
pub open spec fn after_capture(
    capture: Result<(Seq<u8>, PastedImageInfo), PasteErrorView>,
    host: PasteHost,
) -> PasteView {
    match capture {
        Ok((bytes, info)) => PasteView::SavingCapture { bytes, info },
        Err(error) => if !host.linux {
            failed(error)
        } else if may_fall_back(error.kind) && host.wayland_session {
            PasteView::ListingTypes { error }
        } else {
            after_wayland(error, host)
        },
    }
}

/// What follows an event. An event that a state does not wait for changes nothing.
pub open spec fn after_event(state: PasteView, event: PasteEventView, host: PasteHost) -> PasteView {
    match (state, event) {
        (PasteView::SavingCapture { bytes, info }, PasteEventView::Saved(saved)) => match saved {
            Ok(path) => PasteView::Done { result: Ok((path, info)) },
            Err(detail) => failed(PasteErrorView { kind: PasteErrorKind::IoError, detail }),
        },
        (PasteView::ListingTypes { error }, PasteEventView::CommandRan(ran)) => {
            match chosen_type(ran) {
                Some(mime) => PasteView::PastingType { mime, error },
                None => after_wayland(error, host),
            }
        },
        (PasteView::PastingType { mime, error }, PasteEventView::CommandRan(ran)) => {
            match printed_image(ran) {
                Some(payload) => {
                    let kept = wl_paste::kept_payload(payload, wl_paste::payload_png(payload));
                    PasteView::SavingPayload { bytes: kept.0, info: kept.1, error }
                },
                None => after_wayland(error, host),
            }
        },
        (PasteView::SavingPayload { bytes, info, error }, PasteEventView::Saved(saved)) => {
            match saved {
                Ok(path) => PasteView::Done { result: Ok((path, info)) },
                Err(_) => after_wayland(error, host),
            }
        },
        (PasteView::DumpingWindows { next, error }, PasteEventView::CommandRan(ran)) => {
            match dumped_path(ran) {
                Some(path) => match windows_path::wsl_place(path) {
                    Some(place) => PasteView::ReadingSize { path: encode_utf8(place), error },
                    None => failed(error),
                },
                None => if next + 1 < wsl::powershell_names().len() {
                    PasteView::DumpingWindows { next: next + 1, error }
                } else {
                    failed(error)
                },
            }
        },
        (PasteView::ReadingSize { path, error }, PasteEventView::Size(size)) => match size {
            Some(dims) => PasteView::Done { result: Ok((path, capture::png_info(dims))) },
            None => failed(error),
        },
        _ => state,
    }
}

/// Whether a state waits for an event.
pub open spec fn waits_for(state: PasteView, event: PasteEventView) -> bool {
    match state {
        PasteView::SavingCapture { .. } => event is Saved,
        PasteView::ListingTypes { .. } => event is CommandRan,
        PasteView::PastingType { .. } => event is CommandRan,
        PasteView::SavingPayload { .. } => event is Saved,
        PasteView::DumpingWindows { .. } => event is CommandRan,
        PasteView::ReadingSize { .. } => event is Size,
        PasteView::Done { .. } => false,
    }
}

/// How many more outcomes a state may need.
pub open spec fn steps_left(state: PasteView) -> nat {
    match state {
        PasteView::ListingTypes { .. } => 7,
        PasteView::PastingType { .. } => 6,
        PasteView::SavingPayload { .. } => 5,
        PasteView::DumpingWindows { next, .. } => if next < 3 {
            (4 - next) as nat
        } else {
            2
        },
        PasteView::ReadingSize { .. } => 1,
        PasteView::SavingCapture { .. } => 1,
        PasteView::Done { .. } => 0,
    }
}

/// The error that a state falls back to.
pub open spec fn kept_error(state: PasteView) -> Option<PasteErrorView> {
    match state {
        PasteView::ListingTypes { error } => Some(error),
        PasteView::PastingType { error, .. } => Some(error),
        PasteView::SavingPayload { error, .. } => Some(error),
        PasteView::DumpingWindows { error, .. } => Some(error),
        PasteView::ReadingSize { error, .. } => Some(error),
        PasteView::Done { result: Err(error) } => Some(error),
        _ => None,
    }
}

/// The state after a list of events.
pub open spec fn after_events(
    state: PasteView,
    events: Seq<PasteEventView>,
    host: PasteHost,
) -> PasteView
    decreases events.len(),
{
    if events.len() == 0 {
        state
    } else {
        after_event(after_events(state, events.drop_last(), host), events.last(), host)
    }
}

fn error_may_fall_back(error: &PasteImageError) -> (r: bool)
    ensures
        r == may_fall_back(error@.kind),
{
    match error {
        PasteImageError::ClipboardUnavailable(_) => true,
        PasteImageError::NoImage(_) => true,
        _ => false,
    }
}

/// Whether the Wayland fallback is tried after an error; else that error stands.
pub fn wayland_fallback_applies(error: &PasteImageError, wayland_session: bool) -> (r: Result<
    (),
    PasteImageError,
>)
    ensures
        r is Ok <==> may_fall_back(error@.kind) && wayland_session,
        r matches Err(e) ==> e@ == error@,
{
    if error_may_fall_back(error) && wayland_session {
        Ok(())
    } else {
        Err(error.clone())
    }
}

/// Whether the WSL fallback is tried after an error; else that error stands.
pub fn wsl_fallback_applies(error: &PasteImageError, wsl: bool) -> (r: Result<(), PasteImageError>)
    ensures
        r is Ok <==> may_fall_back(error@.kind) && wsl,
        r matches Err(e) ==> e@ == error@,
{
    if wsl && error_may_fall_back(error) {
        Ok(())
    } else {
        Err(error.clone())
    }
}

/// The outcome of the Wayland fallback once `wl-paste` has answered: the image
/// to save, or the error.
pub open spec fn wayland_outcome(payload: Option<Seq<u8>>, error: PasteErrorView) -> Result<
    (Seq<u8>, PastedImageInfo),
    PasteErrorView,
> {
    match payload {
        None => Err(error),
        Some(bytes) => if bytes.len() == 0 {
            Err(
                PasteErrorView {
                    kind: PasteErrorKind::NoImage,
                    detail: "wl-paste returned an empty image payload"@,
                },
            )
        } else {
            Ok(wl_paste::kept_payload(bytes, wl_paste::payload_png(bytes)))
        },
    }
}

/// The image to save of what `wl-paste` answered.
pub fn wayland_image(payload: Option<Vec<u8>>, error: &PasteImageError) -> (r: Result<
    TempImage,
    PasteImageError,
>)
    ensures
        match r {
            Ok(image) => wayland_outcome(
                match payload {
                    Some(bytes) => Some(bytes@),
                    None => None,
                },
                error@,
            ) == Ok::<_, PasteErrorView>((image.bytes@, image.info)),
            Err(e) => wayland_outcome(
                match payload {
                    Some(bytes) => Some(bytes@),
                    None => None,
                },
                error@,
            ) == Err::<(Seq<u8>, PastedImageInfo), _>(e@),
        },
{
    match payload {
        None => Err(error.clone()),
        Some(bytes) => {
            if bytes.len() == 0 {
                return Err(
                    PasteImageError::NoImage(
                        "wl-paste returned an empty image payload".to_string(),
                    ),
                );
            }
            let (bytes, info): (Vec<u8>, PastedImageInfo) = wl_paste::normalize_payload(bytes);
            Ok(TempImage { bytes, info })
        },
    }
}

fn leave_wayland(error: PasteImageError, host: PasteHost) -> (r: PasteState)
    ensures
        r@ == after_wayland(error@, host),
{
    match wsl_fallback_applies(&error, host.wsl) {
        Ok(()) => PasteState::DumpingWindows { next: 0, error },
        Err(_) => PasteState::Done { result: Err(error) },
    }
}

/// Starts pasting an image into a temporary file, with what the clipboard gave.
pub fn paste_image_to_temp_png(
    capture: Result<(Vec<u8>, PastedImageInfo), PasteImageError>,
    host: PasteHost,
) -> (r: PasteState)
    ensures
        r@ == after_capture(capture::capture_view(capture), host),
{
    match capture {
        Ok((bytes, info)) => PasteState::SavingCapture { image: TempImage { bytes, info } },
        Err(error) => {
            if !host.linux {
                return PasteState::Done { result: Err(error) };
            }
            match wayland_fallback_applies(&error, host.wayland_session) {
                Ok(()) => PasteState::ListingTypes { error },
                Err(_) => leave_wayland(error, host),
            }
        },
    }
}

/// Goes on with the outcome of what was to be done.
pub fn next_paste_state(state: PasteState, event: PasteEvent, host: PasteHost) -> (r: PasteState)
    ensures
        r@ == after_event(state@, event@, host),
{
    match (state, event) {
        (PasteState::SavingCapture { image }, PasteEvent::Saved(saved)) => match saved {
            Ok(path) => PasteState::Done { result: Ok((path, image.info)) },
            Err(detail) => PasteState::Done { result: Err(PasteImageError::IoError(detail)) },
        },
        (PasteState::ListingTypes { error }, PasteEvent::CommandRan(ran)) => {
            let mime: Option<&'static str> = match ran {
                Some(output) => wl_paste::listing_choice(output.success, output.stdout.as_slice()),
                None => None,
            };
            match mime {
                Some(mime) => PasteState::PastingType { mime: mime.to_string(), error },
                None => leave_wayland(error, host),
            }
        },
        (PasteState::PastingType { mime: _, error }, PasteEvent::CommandRan(ran)) => {
            let payload: Option<Vec<u8>> = match ran {
                Some(output) => wl_paste::paste_payload(output.success, output.stdout),
                None => None,
            };
            match wayland_image(payload, &error) {
                Ok(image) => PasteState::SavingPayload { image, error },
                Err(_) => leave_wayland(error, host),
            }
        },
        (PasteState::SavingPayload { image, error }, PasteEvent::Saved(saved)) => match saved {
            Ok(path) => PasteState::Done { result: Ok((path, image.info)) },
            Err(_) => leave_wayland(error, host),
        },
        (PasteState::DumpingWindows { next, error }, PasteEvent::CommandRan(ran)) => {
            let dumped: Option<String> = match ran {
                Some(output) => wsl::dumped_image_path(output.success, output.stdout.as_slice()),
                None => None,
            };
            match dumped {
                Some(path) => match windows_path::convert_windows_path_to_wsl(path.as_str()) {
                    Some(place) => PasteState::ReadingSize {
                        path: LocalPath::from_text(place.as_str()),
                        error,
                    },
                    None => PasteState::Done { result: Err(error) },
                },
                None => if next < wsl::powershell_commands().len() - 1 {
                    PasteState::DumpingWindows { next: next + 1, error }
                } else {
                    PasteState::Done { result: Err(error) }
                },
            }
        },
        (PasteState::ReadingSize { path, error }, PasteEvent::Size(size)) => match size {
            Some((width, height)) => PasteState::Done {
                result: Ok(
                    (
                        path,
                        PastedImageInfo {
                            width,
                            height,
                            encoded_format: EncodedImageFormat::Png,
                        },
                    ),
                ),
            },
            None => PasteState::Done { result: Err(error) },
        },
        (state, _) => state,
    }
}

/// The command that a state is to run, with its arguments.
pub open spec fn command_words(state: PasteView) -> Option<Seq<Seq<char>>> {
    match state {
        PasteView::ListingTypes { .. } => Some(seq!["wl-paste"@, "--list-types"@]),
        PasteView::PastingType { mime, .. } => Some(
            seq!["wl-paste"@, "--no-newline"@, "--type"@, mime],
        ),
        PasteView::DumpingWindows { next, .. } => if next < wsl::powershell_names().len() {
            Some(
                seq![
                    wsl::powershell_names()[next],
                    "-NoProfile"@,
                    "-Command"@,
                    DUMP_SCRIPT@,
                ],
            )
        } else {
            None
        },
        _ => None,
    }
}

/// The command that a state is to run, with its arguments.
pub fn command_line(state: &PasteState) -> (r: Option<Vec<String>>)
    ensures
        match r {
            Some(words) => command_words(state@) == Some(text::texts(words@)),
            None => command_words(state@) is None,
        },
{
    match state {
        PasteState::ListingTypes { .. } => {
            let words: Vec<String> = vec!["wl-paste".to_string(), "--list-types".to_string()];
            assert(text::texts(words@) =~= command_words(state@)->0);
            Some(words)
        },
        PasteState::PastingType { mime, .. } => {
            let words: Vec<String> = vec![
                "wl-paste".to_string(),
                "--no-newline".to_string(),
                "--type".to_string(),
                mime.clone(),
            ];
            assert(text::texts(words@) =~= command_words(state@)->0);
            Some(words)
        },
        PasteState::DumpingWindows { next, .. } => {
            let commands: Vec<&'static str> = wsl::powershell_commands();
            assert(commands@.map_values(|s: &'static str| s@).len() == commands@.len());
            if *next < commands.len() {
                let words: Vec<String> = vec![
                    commands[*next].to_string(),
                    "-NoProfile".to_string(),
                    "-Command".to_string(),
                    DUMP_SCRIPT.to_string(),
                ];
                proof {
                    let named = commands@.map_values(|s: &'static str| s@);
                    assert(named[*next as int] == commands@[*next as int]@);
                    assert(text::texts(words@) =~= command_words(state@)->0);
                }
                Some(words)
            } else {
                None
            }
        },
        _ => None,
    }
}

/// The start of the name of the temporary file that a state is to save.
pub open spec fn temp_prefix(state: PasteView) -> Option<Seq<char>> {
    match state {
        PasteView::SavingCapture { .. } => Some("codex-clipboard-"@),
        PasteView::SavingPayload { .. } => Some("codex-clipboard-wayland-"@),
        _ => None,
    }
}

/// The start and the end of the name of the temporary file that a state is to save.
pub fn temp_file_name(state: &PasteState) -> (r: Option<(&'static str, &'static str)>)
    ensures
        match r {
            Some((prefix, suffix)) => temp_prefix(state@) == Some(prefix@) && suffix@ == ".png"@,
            None => temp_prefix(state@) is None,
        },
{
    match state {
        PasteState::SavingCapture { .. } => Some(("codex-clipboard-", ".png")),
        PasteState::SavingPayload { .. } => Some(("codex-clipboard-wayland-", ".png")),
        _ => None,
    }
}

/// An error that is not about finding an image ends the paste at once.
pub proof fn law_other_errors_bypass_the_fallbacks(error: PasteErrorView, host: PasteHost)
    requires
        error.kind is EncodeFailed || error.kind is IoError,
    ensures
        after_capture(Err(error), host) == failed(error),
{
}

/// Each awaited outcome brings the paste closer to its end.
pub proof fn law_paste_makes_progress(state: PasteView, event: PasteEventView, host: PasteHost)
    requires
        waits_for(state, event),
    ensures
        steps_left(after_event(state, event, host)) < steps_left(state),
{
}

/// A paste needs at most seven outcomes.
pub proof fn law_paste_ends(
    capture: Result<(Seq<u8>, PastedImageInfo), PasteErrorView>,
    host: PasteHost,
)
    ensures
        steps_left(after_capture(capture, host)) <= 7,
        forall|s: PasteView| steps_left(s) == 0 <==> s is Done,
{
}

proof fn lemma_error_is_kept(
    state: PasteView,
    events: Seq<PasteEventView>,
    host: PasteHost,
    error: PasteErrorView,
)
    requires
        kept_error(state) == Some(error),
    ensures
        ({
            let last = after_events(state, events, host);
            kept_error(last) == Some(error) || (last is Done && last->result is Ok)
        }),
    decreases events.len(),
{
    if events.len() > 0 {
        lemma_error_is_kept(state, events.drop_last(), host, error);
    }
}

/// Where the clipboard failed, a paste that fails in the end fails with the
/// clipboard's error, whatever the fallbacks met.
pub proof fn law_the_first_error_stands(
    error: PasteErrorView,
    events: Seq<PasteEventView>,
    host: PasteHost,
)
    ensures
        ({
            let last = after_events(after_capture(Err(error), host), events, host);
            last is Done && last->result is Err ==> last->result == Err::<
                (Seq<u8>, PastedImageInfo),
                PasteErrorView,
            >(error)
        }),
{
    lemma_error_is_kept(after_capture(Err(error), host), events, host, error);
}

} // verus!
