//! What is taken from the clipboard: copied files come before image data, and of
//! the files the first one that opens as an image. The states tell what to do
//! next; each outcome leads to the next state.
use crate::paste::capture::ClipboardReading;
use crate::path;
use crate::path::LocalPath;
use image::DynamicImage;
use vstd::prelude::*;

verus! {

/// Image data on the clipboard: four samples for a pixel, row by row.
pub struct ClipboardImage {
    pub width: usize,
    pub height: usize,
    pub rgba: Vec<u8>,
}

/// What is to be done next.
pub enum CaptureState {
    /// Open the clipboard.
    OpenClipboard,
    /// List the files on it.
    ListFiles,
    /// Open one of the files as an image.
    OpenFile { files: Vec<LocalPath>, next: usize },
    /// Read the image data on it.
    ReadImage,
    /// Nothing more; this was found.
    Captured { reading: ClipboardReading },
}

/// What came of what was to be done.
pub enum CaptureEvent {
    /// The clipboard is open, or could not be opened, with the reason.
    ClipboardOpened(Result<(), String>),
    /// The files on the clipboard, if they can be listed.
    FilesListed(Option<Vec<LocalPath>>),
    /// The image in the file, if it opens as one.
    FileOpened(Option<DynamicImage>),
    /// The image data, or why there are none.
    ImageRead(Result<ClipboardImage, String>),
}

/// The contents of a state.
pub enum CaptureView {
    OpenClipboard,
    ListFiles,
    OpenFile { files: Seq<Seq<u8>>, next: int },
    ReadImage,
    Captured { reading: ClipboardReading },
}

impl View for CaptureState {
    type V = CaptureView;

    open spec fn view(&self) -> CaptureView {
        match self {
            CaptureState::OpenClipboard => CaptureView::OpenClipboard,
            CaptureState::ListFiles => CaptureView::ListFiles,
            CaptureState::OpenFile { files, next } => CaptureView::OpenFile {
                files: path::paths_view(files@),
                next: *next as int,
            },
            CaptureState::ReadImage => CaptureView::ReadImage,
            CaptureState::Captured { reading } => CaptureView::Captured { reading: *reading },
        }
    }
}

/// The state once the first files of a list did not open as images.
pub open spec fn after_files(files: Seq<Seq<u8>>, passed: int) -> CaptureView {
    if passed < files.len() {
        CaptureView::OpenFile { files, next: passed }
    } else {
        CaptureView::ReadImage
    }
}

/// What image data, or why there are none, make of a reading.
pub open spec fn data_reading(image: Result<ClipboardImage, String>) -> ClipboardReading {
    match image {
        Ok(image) => ClipboardReading::Pixels {
            width: image.width,
            height: image.height,
            rgba: image.rgba,
        },
        Err(reason) => ClipboardReading::NoImage(reason),
    }
}

/// What an outcome leads to. One that was not asked for changes nothing.
pub open spec fn after_capture_event(state: CaptureView, event: CaptureEvent) -> CaptureView {
    match (state, event) {
        (CaptureView::OpenClipboard, CaptureEvent::ClipboardOpened(Ok(_))) => {
            CaptureView::ListFiles
        },
        (CaptureView::OpenClipboard, CaptureEvent::ClipboardOpened(Err(reason))) => {
            CaptureView::Captured { reading: ClipboardReading::Unavailable(reason) }
        },
        (CaptureView::ListFiles, CaptureEvent::FilesListed(Some(files))) => {
            after_files(path::paths_view(files@), 0)
        },
        (CaptureView::ListFiles, CaptureEvent::FilesListed(None)) => CaptureView::ReadImage,
        (CaptureView::OpenFile { files, next }, CaptureEvent::FileOpened(Some(image))) => {
            CaptureView::Captured { reading: ClipboardReading::FileImage(image) }
        },
        (CaptureView::OpenFile { files, next }, CaptureEvent::FileOpened(None)) => {
            after_files(files, next + 1)
        },
        (CaptureView::ReadImage, CaptureEvent::ImageRead(image)) => CaptureView::Captured {
            reading: data_reading(image),
        },
        _ => state,
    }
}

/// Starts reading the clipboard, where the platform has one for images.
pub fn start_capture(supported: bool) -> (r: CaptureState)
    ensures
        r@ == if supported {
            CaptureView::OpenClipboard
        } else {
            CaptureView::Captured { reading: ClipboardReading::Unsupported }
        },
{
    if supported {
        CaptureState::OpenClipboard
    } else {
        CaptureState::Captured { reading: ClipboardReading::Unsupported }
    }
}

fn go_on_after_files(files: Vec<LocalPath>, passed: usize) -> (r: CaptureState)
    ensures
        r@ == after_files(path::paths_view(files@), passed as int),
{
    if passed < files.len() {
        CaptureState::OpenFile { files, next: passed }
    } else {
        CaptureState::ReadImage
    }
}

/// Goes on with the outcome of what was to be done.
pub fn next_capture_state(state: CaptureState, event: CaptureEvent) -> (r: CaptureState)
    ensures
        r@ == after_capture_event(state@, event),
{
    match (state, event) {
        (CaptureState::OpenClipboard, CaptureEvent::ClipboardOpened(opened)) => match opened {
            Ok(_) => CaptureState::ListFiles,
            Err(reason) => CaptureState::Captured {
                reading: ClipboardReading::Unavailable(reason),
            },
        },
        (CaptureState::ListFiles, CaptureEvent::FilesListed(listed)) => match listed {
            Some(files) => go_on_after_files(files, 0),
            None => CaptureState::ReadImage,
        },
        (CaptureState::OpenFile { files, next }, CaptureEvent::FileOpened(opened)) => {
            match opened {
                Some(image) => CaptureState::Captured {
                    reading: ClipboardReading::FileImage(image),
                },
                None => if next < files.len() {
                    go_on_after_files(files, next + 1)
                } else {
                    CaptureState::ReadImage
                },
            }
        },
        (CaptureState::ReadImage, CaptureEvent::ImageRead(image)) => CaptureState::Captured {
            reading: match image {
                Ok(image) => ClipboardReading::Pixels {
                    width: image.width,
                    height: image.height,
                    rgba: image.rgba,
                },
                Err(reason) => ClipboardReading::NoImage(reason),
            },
        },
        (state, _) => state,
    }
}

/// The state after a list of outcomes.
pub open spec fn after_capture_events(state: CaptureView, events: Seq<CaptureEvent>) -> CaptureView
    decreases events.len(),
{
    if events.len() == 0 {
        state
    } else {
        after_capture_event(after_capture_events(state, events.drop_last()), events.last())
    }
}

/// The outcomes of opening files.
pub open spec fn file_events(opened: Seq<Option<DynamicImage>>) -> Seq<CaptureEvent> {
    opened.map_values(|image: Option<DynamicImage>| CaptureEvent::FileOpened(image))
}

/// Files that do not open as images are passed over one by one; behind the last
/// one the image data are read.
proof fn lemma_files_are_passed(files: Seq<Seq<u8>>, opened: Seq<Option<DynamicImage>>)
    requires
        opened.len() <= files.len(),
        forall|i: int| 0 <= i < opened.len() ==> #[trigger] opened[i] is None,
    ensures
        after_capture_events(after_files(files, 0), file_events(opened)) == after_files(
            files,
            opened.len() as int,
        ),
    decreases opened.len(),
{
    if opened.len() > 0 {
        let front = opened.drop_last();
        assert forall|i: int| 0 <= i < front.len() implies #[trigger] front[i] is None by {
            assert(front[i] == opened[i]);
        }
        lemma_files_are_passed(files, front);
        assert(file_events(opened).drop_last() =~= file_events(front));
        assert(opened[opened.len() - 1] is None);
    }
}

/// The image is that of the first file that opens as one, whatever the others
/// hold, and what is on the clipboard besides is not read.
pub proof fn law_first_file_that_opens_is_taken(
    files: Vec<LocalPath>,
    opened: Seq<Option<DynamicImage>>,
)
    requires
        0 < opened.len() <= files@.len(),
        opened.last() is Some,
        forall|i: int| 0 <= i < opened.len() - 1 ==> #[trigger] opened[i] is None,
    ensures
        after_capture_events(
            after_capture_event(
                CaptureView::ListFiles,
                CaptureEvent::FilesListed(Some(files)),
            ),
            file_events(opened),
        ) == (CaptureView::Captured {
            reading: ClipboardReading::FileImage(opened.last()->0),
        }),
{
    let front = opened.drop_last();
    assert forall|i: int| 0 <= i < front.len() implies #[trigger] front[i] is None by {
        assert(front[i] == opened[i]);
    }
    lemma_files_are_passed(path::paths_view(files@), front);
    assert(file_events(opened).drop_last() =~= file_events(front));
}

/// Image data are read where no file opens as an image, and only there: while
/// files are left that may, the next one is opened.
pub proof fn law_image_data_are_read_only_without_a_file(
    files: Vec<LocalPath>,
    opened: Seq<Option<DynamicImage>>,
)
    requires
        opened.len() <= files@.len(),
        forall|i: int| 0 <= i < opened.len() ==> #[trigger] opened[i] is None,
    ensures
        ({
            let state = after_capture_events(
                after_capture_event(
                    CaptureView::ListFiles,
                    CaptureEvent::FilesListed(Some(files)),
                ),
                file_events(opened),
            );
            &&& state is ReadImage <==> opened.len() == files@.len()
            &&& opened.len() < files@.len() ==> state == (CaptureView::OpenFile {
                files: path::paths_view(files@),
                next: opened.len() as int,
            })
        }),
{
    lemma_files_are_passed(path::paths_view(files@), opened);
}

/// A list of files that cannot be read counts as an empty one.
pub proof fn law_unreadable_file_list_is_empty(files: Vec<LocalPath>)
    requires
        files@.len() == 0,
    ensures
        after_capture_event(CaptureView::ListFiles, CaptureEvent::FilesListed(None))
            == after_capture_event(
            CaptureView::ListFiles,
            CaptureEvent::FilesListed(Some(files)),
        ),
{
}

/// The first image that a file gave.
pub open spec fn first_image(opened: Seq<Option<DynamicImage>>) -> Option<DynamicImage>
    decreases opened.len(),
{
    if opened.len() == 0 {
        None
    } else if opened[0] is Some {
        opened[0]
    } else {
        first_image(opened.skip(1))
    }
}

/// What is taken from a clipboard, given what its files open as and its image
/// data.
pub open spec fn taken(
    opened: Seq<Option<DynamicImage>>,
    image: Result<ClipboardImage, String>,
) -> ClipboardReading {
    match first_image(opened) {
        Some(file) => ClipboardReading::FileImage(file),
        None => data_reading(image),
    }
}

/// From one of the files on, the outcomes of opening the rest of them lead to the
/// first image among them, or to the image data.
proof fn lemma_rest_of_files(
    files: Seq<Seq<u8>>,
    opened: Seq<Option<DynamicImage>>,
    image: Result<ClipboardImage, String>,
    passed: int,
)
    requires
        0 <= passed <= files.len(),
        opened.len() == files.len(),
    ensures
        after_capture_events(
            after_files(files, passed),
            file_events(opened.skip(passed)).push(CaptureEvent::ImageRead(image)),
        ) == (CaptureView::Captured { reading: taken(opened.skip(passed), image) }),
    decreases files.len() - passed,
{
    let rest = opened.skip(passed);
    let last = CaptureEvent::ImageRead(image);
    let events = file_events(rest).push(last);
    let state = after_files(files, passed);
    if passed == files.len() {
        assert(events.drop_last() =~= Seq::<CaptureEvent>::empty());
        assert(after_capture_events(state, events.drop_last()) == state);
        assert(events.last() == last);
    } else {
        let tail = file_events(rest.skip(1)).push(last);
        assert(events =~= seq![events[0]] + tail);
        assert(events[0] == CaptureEvent::FileOpened(rest[0]));
        lemma_after_first(state, events[0], tail);
        if rest[0] is Some {
            lemma_capture_is_final(ClipboardReading::FileImage(rest[0]->0), tail);
        } else {
            assert(rest.skip(1) =~= opened.skip(passed + 1));
            lemma_rest_of_files(files, opened, image, passed + 1);
        }
    }
}

/// A list of outcomes may be followed from its first one.
proof fn lemma_after_first(state: CaptureView, first: CaptureEvent, rest: Seq<CaptureEvent>)
    ensures
        after_capture_events(state, seq![first] + rest) == after_capture_events(
            after_capture_event(state, first),
            rest,
        ),
    decreases rest.len(),
{
    let all = seq![first] + rest;
    if rest.len() == 0 {
        assert(all.drop_last() =~= Seq::<CaptureEvent>::empty());
        assert(all.last() == first);
        assert(after_capture_events(state, all.drop_last()) == state);
    } else {
        assert(all.drop_last() =~= seq![first] + rest.drop_last());
        lemma_after_first(state, first, rest.drop_last());
    }
}

/// What was found stays.
proof fn lemma_capture_is_final(reading: ClipboardReading, events: Seq<CaptureEvent>)
    ensures
        after_capture_events(CaptureView::Captured { reading }, events) == (CaptureView::Captured {
            reading,
        }),
    decreases events.len(),
{
    if events.len() > 0 {
        lemma_capture_is_final(reading, events.drop_last());
    }
}

/// From the clipboard that is open, its files, what each of them opens as, and
/// its image data follow what is taken: the image of the first file that opens as
/// one, and the image data only where none does. Outcomes that were no longer
/// asked for do not count.
pub proof fn law_files_come_before_image_data(
    files: Vec<LocalPath>,
    opened: Seq<Option<DynamicImage>>,
    image: Result<ClipboardImage, String>,
)
    requires
        opened.len() == files@.len(),
    ensures
        after_capture_events(
            CaptureView::OpenClipboard,
            seq![
                CaptureEvent::ClipboardOpened(Ok(())),
                CaptureEvent::FilesListed(Some(files)),
            ] + file_events(opened).push(CaptureEvent::ImageRead(image)),
        ) == (CaptureView::Captured { reading: taken(opened, image) }),
{
    let tail = file_events(opened).push(CaptureEvent::ImageRead(image));
    let open = CaptureEvent::ClipboardOpened(Ok(()));
    let list = CaptureEvent::FilesListed(Some(files));
    assert(seq![open, list] + tail =~= seq![open] + (seq![list] + tail));
    lemma_after_first(CaptureView::OpenClipboard, open, seq![list] + tail);
    lemma_after_first(CaptureView::ListFiles, list, tail);
    assert(opened.skip(0) =~= opened);
    lemma_rest_of_files(path::paths_view(files@), opened, image, 0);
}

/// How many kinds of steps lie ahead of a state.
pub open spec fn capture_stage(state: CaptureView) -> nat {
    match state {
        CaptureView::OpenClipboard => 4,
        CaptureView::ListFiles => 3,
        CaptureView::OpenFile { .. } => 2,
        CaptureView::ReadImage => 1,
        CaptureView::Captured { .. } => 0,
    }
}

/// How many files are still to be opened.
pub open spec fn files_left(state: CaptureView) -> nat {
    match state {
        CaptureView::OpenFile { files, next } => if next < files.len() {
            (files.len() - next) as nat
        } else {
            0
        },
        _ => 0,
    }
}

/// Whether an outcome is one of what a state asks for.
pub open spec fn answers_capture(state: CaptureView, event: CaptureEvent) -> bool {
    match event {
        CaptureEvent::ClipboardOpened(_) => state is OpenClipboard,
        CaptureEvent::FilesListed(_) => state is ListFiles,
        CaptureEvent::FileOpened(_) => state is OpenFile,
        CaptureEvent::ImageRead(_) => state is ReadImage,
    }
}

/// Every reading ends: an outcome that was asked for leads to a later kind of
/// step, or to the next file. Any other changes nothing.
pub proof fn law_reading_makes_progress(state: CaptureView, event: CaptureEvent)
    ensures
        answers_capture(state, event) ==> capture_stage(after_capture_event(state, event))
            < capture_stage(state) || (capture_stage(after_capture_event(state, event))
            == capture_stage(state) && files_left(after_capture_event(state, event)) < files_left(
            state,
        )),
        !answers_capture(state, event) ==> after_capture_event(state, event) == state,
{
}

} // verus!
