//! Uploading a feedback report. The states tell what to do next; each outcome
//! leads to the next state, and the last but one holds the report to upload.
use crate::feedback::attachments;
use crate::feedback::attachments::AttachmentView;
use crate::feedback::attachments::FeedbackAttachmentPath;
use crate::feedback::ids;
use crate::feedback::tags;
use crate::feedback::tags::Turn;
use crate::feedback::threads;
use crate::path;
use crate::path::LocalPath;
use crate::text;
use crate::text_map::TextMap;
use vstd::prelude::*;

verus! {

/// A request to upload feedback.
pub struct FeedbackUploadParams {
    pub classification: String,
    pub reason: Option<String>,
    pub thread_id: Option<String>,
    pub include_logs: bool,
    pub extra_log_files: Option<Vec<LocalPath>>,
    pub tags: Option<TextMap>,
}

/// What the server offers.
pub struct FeedbackSetting {
    /// Whether feedback may be sent.
    pub feedback_enabled: bool,
    /// Whether there is a state database.
    pub has_state_db: bool,
    /// Whether it runs on Windows; only there a sandbox keeps a log.
    pub windows: bool,
    /// The name of the server whose tool calls give correlation tags.
    pub apps_server_name: String,
}

/// A report in the making.
pub struct FeedbackReport {
    pub classification: String,
    pub reason: Option<String>,
    pub include_logs: bool,
    pub has_state_db: bool,
    pub windows: bool,
    pub apps_server_name: String,
    /// The thread that the report is about.
    pub thread: Option<String>,
    /// The thread that the snapshot of the server's own records is of.
    pub snapshot_thread: String,
    /// The files that the caller wants to go with it.
    pub extra_log_files: Vec<LocalPath>,
    pub tags: TextMap,
    /// The threads whose logs and histories go with it.
    pub threads: Vec<String>,
    pub logs_override: Option<Vec<u8>>,
    /// The text of the doctor's report.
    pub doctor_attachment: Option<Vec<u8>>,
    pub attachment_paths: Vec<FeedbackAttachmentPath>,
}

/// The contents of a report.
pub struct ReportView {
    pub classification: Seq<char>,
    pub reason: Option<Seq<char>>,
    pub include_logs: bool,
    pub has_state_db: bool,
    pub windows: bool,
    pub server: Seq<char>,
    pub thread: Option<Seq<char>>,
    pub snapshot_thread: Seq<char>,
    pub extra_files: Seq<Seq<u8>>,
    pub tags: Map<Seq<char>, Seq<char>>,
    pub threads: Seq<Seq<char>>,
    pub logs: Option<Seq<u8>>,
    pub doctor: Option<Seq<u8>>,
    pub files: Seq<AttachmentView>,
}

/// The bytes of a text that may be missing.
pub open spec fn bytes_view(bytes: Option<Vec<u8>>) -> Option<Seq<u8>> {
    match bytes {
        Some(bytes) => Some(bytes@),
        None => None,
    }
}

impl View for FeedbackReport {
    type V = ReportView;

    open spec fn view(&self) -> ReportView {
        ReportView {
            classification: self.classification@,
            reason: attachments::name_view(self.reason),
            include_logs: self.include_logs,
            has_state_db: self.has_state_db,
            windows: self.windows,
            server: self.apps_server_name@,
            thread: attachments::name_view(self.thread),
            snapshot_thread: self.snapshot_thread@,
            extra_files: path::paths_view(self.extra_log_files@),
            tags: self.tags@,
            threads: text::texts(self.threads@),
            logs: bytes_view(self.logs_override),
            doctor: bytes_view(self.doctor_attachment),
            files: attachments::attachments_view(self.attachment_paths@),
        }
    }
}

/// Whose fault a failure is.
#[derive(Debug, Clone, Copy, PartialEq, Eq, Structural)]
pub enum FeedbackErrorKind {
    InvalidRequest,
    Internal,
}

/// Why an upload failed.
#[derive(Debug, PartialEq, Eq)]
pub struct FeedbackError {
    pub kind: FeedbackErrorKind,
    pub message: String,
}

/// The contents of a failure.
pub struct FeedbackErrorView {
    pub kind: FeedbackErrorKind,
    pub message: Seq<char>,
}

impl View for FeedbackError {
    type V = FeedbackErrorView;

    open spec fn view(&self) -> FeedbackErrorView {
        FeedbackErrorView { kind: self.kind, message: self.message@ }
    }
}

/// What is to be done next.
pub enum UploadState {
    /// Read the given text as a thread id.
    ParseThread { report: FeedbackReport, given: String },
    /// Load the history of the live thread.
    ReadHistory { report: FeedbackReport, thread: String },
    /// Find where the history of the thread is stored.
    ResolveHistory { report: FeedbackReport, thread: String },
    /// Load the stored history at a path.
    LoadHistory { report: FeedbackReport, path: LocalPath },
    /// Take a snapshot of the server's own records for the thread of the report.
    TakeSnapshot { report: FeedbackReport },
    /// Flush the logs.
    FlushLogs { report: FeedbackReport },
    /// List the tree of the thread.
    ListSubtree { report: FeedbackReport, thread: String },
    /// List the open descendants of the thread in the state database.
    ListOpen { report: FeedbackReport, thread: String },
    /// List its closed descendants there.
    ListClosed { report: FeedbackReport, thread: String, open: Option<Vec<String>> },
    /// Read the logs of the report's threads from the state database.
    QueryLogs { report: FeedbackReport },
    /// Find where the history of one of the report's threads is stored.
    FindRollout { report: FeedbackReport, next: usize },
    /// Find where the history of the thread's automatic review is stored.
    FindGuardian { report: FeedbackReport, thread: String },
    /// Find the sandbox log.
    FindSandboxLog { report: FeedbackReport },
    /// Have the doctor's report written.
    WriteDoctorReport { report: FeedbackReport },
    /// Upload the report.
    Upload { report: FeedbackReport },
    /// Nothing more; this is the thread of the uploaded snapshot, or the failure.
    Done { result: Result<String, FeedbackError> },
}

/// The contents of a state.
pub enum UploadView {
    ParseThread { report: ReportView, given: Seq<char> },
    ReadHistory { report: ReportView, thread: Seq<char> },
    ResolveHistory { report: ReportView, thread: Seq<char> },
    LoadHistory { report: ReportView, path: Seq<u8> },
    TakeSnapshot { report: ReportView },
    FlushLogs { report: ReportView },
    ListSubtree { report: ReportView, thread: Seq<char> },
    ListOpen { report: ReportView, thread: Seq<char> },
    ListClosed { report: ReportView, thread: Seq<char>, open: Option<Seq<Seq<char>>> },
    QueryLogs { report: ReportView },
    FindRollout { report: ReportView, next: int },
    FindGuardian { report: ReportView, thread: Seq<char> },
    FindSandboxLog { report: ReportView },
    WriteDoctorReport { report: ReportView },
    Upload { report: ReportView },
    Done { result: Result<Seq<char>, FeedbackErrorView> },
}

impl View for UploadState {
    type V = UploadView;

    open spec fn view(&self) -> UploadView {
        match self {
            UploadState::ParseThread { report, given } => UploadView::ParseThread {
                report: report@,
                given: given@,
            },
            UploadState::ReadHistory { report, thread } => UploadView::ReadHistory {
                report: report@,
                thread: thread@,
            },
            UploadState::ResolveHistory { report, thread } => UploadView::ResolveHistory {
                report: report@,
                thread: thread@,
            },
            UploadState::LoadHistory { report, path } => UploadView::LoadHistory {
                report: report@,
                path: path@,
            },
            UploadState::TakeSnapshot { report } => UploadView::TakeSnapshot { report: report@ },
            UploadState::FlushLogs { report } => UploadView::FlushLogs { report: report@ },
            UploadState::ListSubtree { report, thread } => UploadView::ListSubtree {
                report: report@,
                thread: thread@,
            },
            UploadState::ListOpen { report, thread } => UploadView::ListOpen {
                report: report@,
                thread: thread@,
            },
            UploadState::ListClosed { report, thread, open } => UploadView::ListClosed {
                report: report@,
                thread: thread@,
                open: threads::optional_texts(*open),
            },
            UploadState::QueryLogs { report } => UploadView::QueryLogs { report: report@ },
            UploadState::FindRollout { report, next } => UploadView::FindRollout {
                report: report@,
                next: *next as int,
            },
            UploadState::FindGuardian { report, thread } => UploadView::FindGuardian {
                report: report@,
                thread: thread@,
            },
            UploadState::FindSandboxLog { report } => UploadView::FindSandboxLog {
                report: report@,
            },
            UploadState::WriteDoctorReport { report } => UploadView::WriteDoctorReport {
                report: report@,
            },
            UploadState::Upload { report } => UploadView::Upload { report: report@ },
            UploadState::Done { result } => UploadView::Done {
                result: match result {
                    Ok(thread) => Ok(thread@),
                    Err(error) => Err(error@),
                },
            },
        }
    }
}

/// What came of loading the history of a live thread.
pub enum LiveHistory {
    Loaded(Vec<Turn>),
    /// The thread is live, and its history cannot be loaded.
    Unreadable,
    /// There is no such live thread.
    NotLive,
}

/// What the doctor reports.
pub struct DoctorReport {
    pub attachment: Vec<u8>,
    pub tags: TextMap,
}

/// The log of the sandbox.
pub struct SandboxLog {
    pub path: LocalPath,
    /// Whether there is a file at the path.
    pub is_file: bool,
    /// The name that it is attached under.
    pub filename: String,
}

/// What came of what was to be done.
pub enum UploadEvent {
    /// The thread id, or why the text is none.
    ThreadParsed(Result<String, String>),
    /// The history of the live thread.
    LiveHistory(LiveHistory),
    /// The place of a stored history, if there is one.
    RolloutResolved(Option<LocalPath>),
    /// The stored history, if it can be loaded.
    StoredHistory(Option<Vec<Turn>>),
    /// The thread that the snapshot is of.
    SnapshotTaken(String),
    /// The logs are flushed.
    LogsFlushed,
    /// The threads of the tree, if they can be listed.
    SubtreeListed(Option<Vec<String>>),
    /// The descendants in the state database, if they can be listed.
    DescendantsListed(Option<Vec<String>>),
    /// The logs, if they can be read.
    LogsRead(Option<Vec<u8>>),
    /// The place of the automatic review's history, if there is one.
    GuardianFound(Option<LocalPath>),
    /// Where the sandbox log is, if the sandbox keeps one.
    SandboxLogFound(Option<SandboxLog>),
    /// The doctor's report, if there is one.
    DoctorReported(Option<DoctorReport>),
    /// The report is uploaded, or the upload failed, with the reason.
    Uploaded(Result<(), String>),
}

/// A refusal or failure.
pub open spec fn failed(kind: FeedbackErrorKind, message: Seq<char>) -> UploadView {
    UploadView::Done { result: Err(FeedbackErrorView { kind, message }) }
}

/// Whether tags give one of the identifiers that a history could give.
pub open spec fn gives_ids(tags: Map<Seq<char>, Seq<char>>) -> bool {
    tags.contains_key("project_id"@) || tags.contains_key("deployment_id"@) || tags.contains_key(
        "version_id"@,
    )
}

/// A report with the tags of a history.
pub open spec fn with_history(report: ReportView, turns: Seq<Turn>) -> ReportView {
    ReportView {
        tags: report.tags.union_prefer_right(tags::conversation_tags(turns, report.server)),
        ..report
    }
}

/// A report with one more file, where there is one.
pub open spec fn with_file(report: ReportView, item: Option<AttachmentView>) -> ReportView {
    ReportView { files: attachments::attached_if(report.files, item), ..report }
}

/// A report with the files that the caller wants to go with it.
pub open spec fn with_extra_files(report: ReportView) -> ReportView {
    ReportView { files: attachments::all_attached(report.files, report.extra_files), ..report }
}

/// A report with the doctor's report, whose tags give way to those that are there.
pub open spec fn with_doctor(report: ReportView, doctor: Option<DoctorReport>) -> ReportView {
    match doctor {
        Some(doctor) => ReportView {
            doctor: Some(doctor.attachment@),
            tags: doctor.tags@.union_prefer_right(report.tags),
            ..report
        },
        None => report,
    }
}

/// A path that may be missing, as an attachment.
pub open spec fn found_file(
    found: Option<LocalPath>,
    name: Option<Seq<char>>,
) -> Option<AttachmentView> {
    match found {
        Some(path) => Some(AttachmentView { path: path@, name }),
        None => None,
    }
}

/// The sandbox log as an attachment: on Windows, and where it is a file.
pub open spec fn sandbox_file(windows: bool, log: Option<SandboxLog>) -> Option<AttachmentView> {
    match log {
        Some(log) => if windows && log.is_file {
            Some(AttachmentView { path: log.path@, name: Some(log.filename@) })
        } else {
            None
        },
        None => None,
    }
}

/// Goes on once the thread of a report is known.
pub open spec fn after_thread(report: ReportView) -> UploadView {
    if report.thread is Some && !gives_ids(report.tags) {
        UploadView::ReadHistory { report, thread: report.thread->0 }
    } else {
        after_history(report)
    }
}

/// Goes on once the tags of the history are there.
pub open spec fn after_history(report: ReportView) -> UploadView {
    UploadView::TakeSnapshot { report }
}

/// Goes on once the snapshot is taken.
pub open spec fn after_snapshot(report: ReportView) -> UploadView {
    if report.include_logs {
        UploadView::FlushLogs { report }
    } else {
        UploadView::Upload { report: with_extra_files(report) }
    }
}

/// Goes on once the logs are flushed.
pub open spec fn after_flush(report: ReportView) -> UploadView {
    match report.thread {
        Some(thread) => UploadView::ListSubtree { report, thread },
        None => after_threads(report),
    }
}

/// Goes on once the tree of a thread is listed.
pub open spec fn after_listing(
    report: ReportView,
    thread: Seq<char>,
    listed: Seq<Seq<char>>,
) -> UploadView {
    after_threads(ReportView { threads: threads::feedback_threads(thread, listed), ..report })
}

/// Goes on once the threads of a report are known.
pub open spec fn after_threads(report: ReportView) -> UploadView {
    if report.has_state_db && report.threads.len() > 0 {
        UploadView::QueryLogs { report }
    } else {
        after_rollouts(report, 0)
    }
}

/// Goes on once the histories of the first threads of a report are found.
pub open spec fn after_rollouts(report: ReportView, found: int) -> UploadView {
    if found < report.threads.len() {
        UploadView::FindRollout { report, next: found }
    } else {
        match report.thread {
            Some(thread) => UploadView::FindGuardian { report, thread },
            None => UploadView::FindSandboxLog { report },
        }
    }
}

/// The logs that go with a report: none where there is nothing in them.
pub open spec fn kept_logs(logs: Option<Vec<u8>>) -> Option<Seq<u8>> {
    match logs {
        Some(bytes) => if bytes@.len() == 0 {
            None
        } else {
            Some(bytes@)
        },
        None => None,
    }
}

/// The report that a request starts with.
pub open spec fn first_report(params: FeedbackUploadParams, setting: FeedbackSetting) -> ReportView {
    ReportView {
        classification: params.classification@,
        reason: attachments::name_view(params.reason),
        include_logs: params.include_logs,
        has_state_db: setting.has_state_db,
        windows: setting.windows,
        server: setting.apps_server_name@,
        thread: None,
        snapshot_thread: ""@,
        extra_files: match params.extra_log_files {
            Some(files) => path::paths_view(files@),
            None => Seq::empty(),
        },
        tags: caller_tags(params),
        threads: Seq::empty(),
        logs: None,
        doctor: None,
        files: Seq::empty(),
    }
}

/// The tags that the caller gives.
pub open spec fn caller_tags(params: FeedbackUploadParams) -> Map<Seq<char>, Seq<char>> {
    match params.tags {
        Some(tags) => tags@,
        None => Map::empty(),
    }
}

/// What a request leads to.
pub open spec fn started(params: FeedbackUploadParams, setting: FeedbackSetting) -> UploadView {
    if !setting.feedback_enabled {
        failed(
            FeedbackErrorKind::InvalidRequest,
            "sending feedback is disabled by configuration"@,
        )
    } else {
        match params.thread_id {
            Some(given) => UploadView::ParseThread {
                report: first_report(params, setting),
                given: given@,
            },
            None => after_thread(first_report(params, setting)),
        }
    }
}

/// The result of an upload, from the thread of the snapshot and the outcome.
pub open spec fn outcome_of(snapshot_thread: Seq<char>, outcome: Result<(), String>) -> Result<
    Seq<char>,
    FeedbackErrorView,
> {
    match outcome {
        Ok(()) => Ok(snapshot_thread),
        Err(detail) => Err(
            FeedbackErrorView {
                kind: FeedbackErrorKind::Internal,
                message: "failed to upload feedback: "@ + detail@,
            },
        ),
    }
}

/// What an outcome leads to. One that was not asked for changes nothing.
pub open spec fn after_event(state: UploadView, event: UploadEvent) -> UploadView {
    match (state, event) {
        (UploadView::ParseThread { report, given }, UploadEvent::ThreadParsed(Ok(thread))) => {
            after_thread(ReportView { thread: Some(thread@), ..report })
        },
        (UploadView::ParseThread { report, given }, UploadEvent::ThreadParsed(Err(detail))) => {
            failed(FeedbackErrorKind::InvalidRequest, "invalid thread id: "@ + detail@)
        },
        (UploadView::ReadHistory { report, thread }, UploadEvent::LiveHistory(history)) => {
            match history {
                LiveHistory::Loaded(turns) => after_history(with_history(report, turns@)),
                LiveHistory::Unreadable => after_history(report),
                LiveHistory::NotLive => UploadView::ResolveHistory { report, thread },
            }
        },
        (UploadView::ResolveHistory { report, thread }, UploadEvent::RolloutResolved(found)) => {
            match found {
                Some(path) => UploadView::LoadHistory { report, path: path@ },
                None => after_history(report),
            }
        },
        (UploadView::LoadHistory { report, path }, UploadEvent::StoredHistory(history)) => {
            match history {
                Some(turns) => after_history(with_history(report, turns@)),
                None => after_history(report),
            }
        },
        (UploadView::TakeSnapshot { report }, UploadEvent::SnapshotTaken(thread)) => {
            after_snapshot(ReportView { snapshot_thread: thread@, ..report })
        },
        (UploadView::FlushLogs { report }, UploadEvent::LogsFlushed) => after_flush(report),
        (UploadView::ListSubtree { report, thread }, UploadEvent::SubtreeListed(listed)) => {
            match listed {
                Some(ids) => after_listing(report, thread, text::texts(ids@)),
                None => if report.has_state_db {
                    UploadView::ListOpen { report, thread }
                } else {
                    after_listing(report, thread, threads::stored_listing(thread, None, None))
                },
            }
        },
        (UploadView::ListOpen { report, thread }, UploadEvent::DescendantsListed(open)) => {
            UploadView::ListClosed { report, thread, open: threads::optional_texts(open) }
        },
        (
            UploadView::ListClosed { report, thread, open },
            UploadEvent::DescendantsListed(closed),
        ) => {
            after_listing(
                report,
                thread,
                threads::stored_listing(thread, open, threads::optional_texts(closed)),
            )
        },
        (UploadView::QueryLogs { report }, UploadEvent::LogsRead(logs)) => {
            after_rollouts(ReportView { logs: kept_logs(logs), ..report }, 0)
        },
        (UploadView::FindRollout { report, next }, UploadEvent::RolloutResolved(found)) => {
            after_rollouts(with_file(report, found_file(found, None)), next + 1)
        },
        (UploadView::FindGuardian { report, thread }, UploadEvent::GuardianFound(found)) => {
            UploadView::FindSandboxLog {
                report: with_file(
                    report,
                    found_file(found, Some(attachments::review_name(thread))),
                ),
            }
        },
        (UploadView::FindSandboxLog { report }, UploadEvent::SandboxLogFound(found)) => {
            UploadView::WriteDoctorReport {
                report: with_extra_files(
                    with_file(report, sandbox_file(report.windows, found)),
                ),
            }
        },
        (UploadView::WriteDoctorReport { report }, UploadEvent::DoctorReported(doctor)) => {
            UploadView::Upload { report: with_doctor(report, doctor) }
        },
        (UploadView::Upload { report }, UploadEvent::Uploaded(outcome)) => UploadView::Done {
            result: outcome_of(report.snapshot_thread, outcome),
        },
        _ => state,
    }
}

fn error_of(kind: FeedbackErrorKind, what: &str, detail: &str) -> (r: FeedbackError)
    ensures
        r@ == (FeedbackErrorView { kind, message: what@ + detail@ }),
{
    let mut message: String = what.to_string();
    message.append(detail);
    FeedbackError { kind, message }
}

/// The result of an upload, from the thread of the snapshot and the outcome.
pub fn finish_upload(snapshot_thread: String, outcome: Result<(), String>) -> (r: Result<
    String,
    FeedbackError,
>)
    ensures
        match r {
            Ok(thread) => outcome_of(snapshot_thread@, outcome) == Ok::<_, FeedbackErrorView>(
                thread@,
            ),
            Err(error) => outcome_of(snapshot_thread@, outcome) == Err::<Seq<char>, _>(error@),
        },
{
    match outcome {
        Ok(()) => Ok(snapshot_thread),
        Err(detail) => Err(
            error_of(
                FeedbackErrorKind::Internal,
                "failed to upload feedback: ",
                detail.as_str(),
            ),
        ),
    }
}

fn go_on_after_thread(report: FeedbackReport) -> (r: UploadState)
    ensures
        r@ == after_thread(report@),
{
    let given: bool = report.tags.contains_key("project_id") || report.tags.contains_key(
        "deployment_id",
    ) || report.tags.contains_key("version_id");
    match &report.thread {
        Some(thread) => if !given {
            let thread: String = thread.clone();
            UploadState::ReadHistory { report, thread }
        } else {
            UploadState::TakeSnapshot { report }
        },
        None => UploadState::TakeSnapshot { report },
    }
}

fn go_on_after_snapshot(report: FeedbackReport) -> (r: UploadState)
    ensures
        r@ == after_snapshot(report@),
{
    if report.include_logs {
        UploadState::FlushLogs { report }
    } else {
        UploadState::Upload { report: add_extra_files(report) }
    }
}

fn go_on_after_flush(report: FeedbackReport) -> (r: UploadState)
    ensures
        r@ == after_flush(report@),
{
    match &report.thread {
        Some(thread) => {
            let thread: String = thread.clone();
            UploadState::ListSubtree { report, thread }
        },
        None => go_on_after_threads(report),
    }
}

fn go_on_after_listing(report: FeedbackReport, thread: &str, listed: &Vec<String>) -> (r:
    UploadState)
    ensures
        r@ == after_listing(report@, thread@, text::texts(listed@)),
{
    let mut report: FeedbackReport = report;
    report.threads = threads::select_feedback_threads(thread, listed);
    go_on_after_threads(report)
}

fn go_on_after_threads(report: FeedbackReport) -> (r: UploadState)
    ensures
        r@ == after_threads(report@),
{
    if report.has_state_db && report.threads.len() > 0 {
        UploadState::QueryLogs { report }
    } else {
        go_on_after_rollouts(report, 0)
    }
}

fn go_on_after_rollouts(report: FeedbackReport, found: usize) -> (r: UploadState)
    ensures
        r@ == after_rollouts(report@, found as int),
{
    if found < report.threads.len() {
        UploadState::FindRollout { report, next: found }
    } else {
        match &report.thread {
            Some(thread) => {
                let thread: String = thread.clone();
                UploadState::FindGuardian { report, thread }
            },
            None => UploadState::FindSandboxLog { report },
        }
    }
}

fn add_extra_files(report: FeedbackReport) -> (r: FeedbackReport)
    ensures
        r@ == with_extra_files(report@),
{
    let mut report: FeedbackReport = report;
    attachments::attach_all(&mut report.attachment_paths, &report.extra_log_files);
    report
}

fn add_file(report: FeedbackReport, item: Option<FeedbackAttachmentPath>) -> (r: FeedbackReport)
    ensures
        r@ == with_file(
            report@,
            match item {
                Some(item) => Some(item@),
                None => None,
            },
        ),
{
    let mut report: FeedbackReport = report;
    if let Some(item) = item {
        attachments::attach(&mut report.attachment_paths, item);
    }
    report
}

fn add_found(report: FeedbackReport, found: Option<LocalPath>, name: Option<String>) -> (r:
    FeedbackReport)
    ensures
        r@ == with_file(report@, found_file(found, attachments::name_view(name))),
{
    match found {
        Some(path) => add_file(
            report,
            Some(FeedbackAttachmentPath { path, attachment_filename_override: name }),
        ),
        None => report,
    }
}

fn add_history(report: FeedbackReport, turns: &Vec<Turn>) -> (r: FeedbackReport)
    ensures
        r@ == with_history(report@, turns@),
{
    let mut report: FeedbackReport = report;
    let found: TextMap = tags::appgen_feedback_tags(
        turns.as_slice(),
        report.apps_server_name.as_str(),
    );
    report.tags.extend(&found);
    report
}

fn add_doctor(report: FeedbackReport, doctor: Option<DoctorReport>) -> (r: FeedbackReport)
    ensures
        r@ == with_doctor(report@, doctor),
{
    let mut report: FeedbackReport = report;
    if let Some(doctor) = doctor {
        report.tags.extend_missing(&doctor.tags);
        report.doctor_attachment = Some(doctor.attachment);
    }
    report
}

/// Starts with a request.
pub fn upload_feedback_response(params: FeedbackUploadParams, setting: FeedbackSetting) -> (r:
    UploadState)
    ensures
        r@ == started(params, setting),
{
    if !setting.feedback_enabled {
        return UploadState::Done {
            result: Err(
                FeedbackError {
                    kind: FeedbackErrorKind::InvalidRequest,
                    message: "sending feedback is disabled by configuration".to_string(),
                },
            ),
        };
    }
    let extra_log_files: Vec<LocalPath> = match params.extra_log_files {
        Some(files) => files,
        None => Vec::new(),
    };
    let tags: TextMap = match params.tags {
        Some(tags) => tags,
        None => TextMap::new(),
    };
    let report = FeedbackReport {
        classification: params.classification,
        reason: params.reason,
        include_logs: params.include_logs,
        has_state_db: setting.has_state_db,
        windows: setting.windows,
        apps_server_name: setting.apps_server_name,
        thread: None,
        snapshot_thread: "".to_string(),
        extra_log_files,
        tags,
        threads: Vec::new(),
        logs_override: None,
        doctor_attachment: None,
        attachment_paths: Vec::new(),
    };
    proof {
        assert(report@.extra_files =~= first_report(params, setting).extra_files);
        assert(report@.threads =~= Seq::<Seq<char>>::empty());
        assert(report@.files =~= Seq::<AttachmentView>::empty());
    }
    match params.thread_id {
        Some(given) => UploadState::ParseThread { report, given },
        None => go_on_after_thread(report),
    }
}

/// Goes on with the outcome of what was to be done.
pub fn next_upload_state(state: UploadState, event: UploadEvent) -> (r: UploadState)
    ensures
        r@ == after_event(state@, event),
{
    match (state, event) {
        (UploadState::ParseThread { report, given: _ }, UploadEvent::ThreadParsed(parsed)) => {
            match parsed {
                Ok(thread) => {
                    let mut report: FeedbackReport = report;
                    report.thread = Some(thread);
                    go_on_after_thread(report)
                },
                Err(detail) => UploadState::Done {
                    result: Err(
                        error_of(
                            FeedbackErrorKind::InvalidRequest,
                            "invalid thread id: ",
                            detail.as_str(),
                        ),
                    ),
                },
            }
        },
        (UploadState::ReadHistory { report, thread }, UploadEvent::LiveHistory(history)) => {
            match history {
                LiveHistory::Loaded(turns) => UploadState::TakeSnapshot {
                    report: add_history(report, &turns),
                },
                LiveHistory::Unreadable => UploadState::TakeSnapshot { report },
                LiveHistory::NotLive => UploadState::ResolveHistory { report, thread },
            }
        },
        (UploadState::ResolveHistory { report, thread: _ }, UploadEvent::RolloutResolved(found)) => {
            match found {
                Some(path) => UploadState::LoadHistory { report, path },
                None => UploadState::TakeSnapshot { report },
            }
        },
        (UploadState::LoadHistory { report, path: _ }, UploadEvent::StoredHistory(history)) => {
            match history {
                Some(turns) => UploadState::TakeSnapshot {
                    report: add_history(report, &turns),
                },
                None => UploadState::TakeSnapshot { report },
            }
        },
        (UploadState::TakeSnapshot { report }, UploadEvent::SnapshotTaken(thread)) => {
            let mut report: FeedbackReport = report;
            report.snapshot_thread = thread;
            go_on_after_snapshot(report)
        },
        (UploadState::FlushLogs { report }, UploadEvent::LogsFlushed) => go_on_after_flush(report),
        (UploadState::ListSubtree { report, thread }, UploadEvent::SubtreeListed(listed)) => {
            match listed {
                Some(ids) => go_on_after_listing(report, thread.as_str(), &ids),
                None => if report.has_state_db {
                    UploadState::ListOpen { report, thread }
                } else {
                    let ids: Vec<String> = threads::fallback_listing(thread.as_str(), None, None);
                    go_on_after_listing(report, thread.as_str(), &ids)
                },
            }
        },
        (UploadState::ListOpen { report, thread }, UploadEvent::DescendantsListed(open)) => {
            UploadState::ListClosed { report, thread, open }
        },
        (
            UploadState::ListClosed { report, thread, open },
            UploadEvent::DescendantsListed(closed),
        ) => {
            let ids: Vec<String> = threads::fallback_listing(thread.as_str(), open, closed);
            go_on_after_listing(report, thread.as_str(), &ids)
        },
        (UploadState::QueryLogs { report }, UploadEvent::LogsRead(logs)) => {
            let mut report: FeedbackReport = report;
            report.logs_override = match logs {
                Some(bytes) => if bytes.len() == 0 {
                    None
                } else {
                    Some(bytes)
                },
                None => None,
            };
            go_on_after_rollouts(report, 0)
        },
        (UploadState::FindRollout { report, next }, UploadEvent::RolloutResolved(found)) => {
            let report: FeedbackReport = add_found(report, found, None);
            if next < report.threads.len() {
                go_on_after_rollouts(report, next + 1)
            } else {
                go_on_after_rollouts(report, next)
            }
        },
        (UploadState::FindGuardian { report, thread }, UploadEvent::GuardianFound(found)) => {
            UploadState::FindSandboxLog {
                report: add_found(
                    report,
                    found,
                    Some(attachments::auto_review_rollout_filename(thread.as_str())),
                ),
            }
        },
        (UploadState::FindSandboxLog { report }, UploadEvent::SandboxLogFound(found)) => {
            let item: Option<FeedbackAttachmentPath> = match found {
                Some(log) => attachments::windows_sandbox_log_attachment(
                    report.windows,
                    log.path,
                    log.is_file,
                    log.filename.as_str(),
                ),
                None => None,
            };
            UploadState::WriteDoctorReport { report: add_extra_files(add_file(report, item)) }
        },
        (UploadState::WriteDoctorReport { report }, UploadEvent::DoctorReported(doctor)) => {
            UploadState::Upload { report: add_doctor(report, doctor) }
        },
        (UploadState::Upload { report }, UploadEvent::Uploaded(outcome)) => {
            UploadState::Done { result: finish_upload(report.snapshot_thread, outcome) }
        },
        (state, _) => state,
    }
}

/// The tags to upload: none rather than an empty map.
pub fn tags_to_upload(tags: &TextMap) -> (r: Option<&TextMap>)
    ensures
        r is Some <==> tags@ != Map::<Seq<char>, Seq<char>>::empty(),
        r matches Some(kept) ==> kept@ == tags@,
{
    if tags.is_empty() {
        None
    } else {
        Some(tags)
    }
}

/// How to find where the history of a thread is stored.
pub enum RolloutLookup {
    /// The live thread knows it.
    Found(LocalPath),
    /// The state database is to be asked.
    AskStateDb,
    /// Nothing knows it.
    NotFound,
}

/// Where to look for the stored history of a thread: what the live thread says
/// comes first, then the state database where there is one.
pub fn resolve_rollout_path(live: Option<LocalPath>, has_state_db: bool) -> (r: RolloutLookup)
    ensures
        match live {
            Some(path) => r matches RolloutLookup::Found(found) && found@ == path@,
            None => if has_state_db {
                r is AskStateDb
            } else {
                r is NotFound
            },
        },
{
    match live {
        Some(path) => RolloutLookup::Found(path),
        None => if has_state_db {
            RolloutLookup::AskStateDb
        } else {
            RolloutLookup::NotFound
        },
    }
}

/// The stored history that the state database names. A database that fails
/// names none.
pub fn stored_rollout(answer: Result<Option<LocalPath>, String>) -> (r: Option<LocalPath>)
    ensures
        r == match answer {
            Ok(found) => found,
            Err(_) => None,
        },
{
    match answer {
        Ok(found) => found,
        Err(_) => None,
    }
}

/// The report of a state, but for the last one.
pub open spec fn report_of(state: UploadView) -> Option<ReportView> {
    match state {
        UploadView::ParseThread { report, .. } => Some(report),
        UploadView::ReadHistory { report, .. } => Some(report),
        UploadView::ResolveHistory { report, .. } => Some(report),
        UploadView::LoadHistory { report, .. } => Some(report),
        UploadView::TakeSnapshot { report } => Some(report),
        UploadView::FlushLogs { report } => Some(report),
        UploadView::ListSubtree { report, .. } => Some(report),
        UploadView::ListOpen { report, .. } => Some(report),
        UploadView::ListClosed { report, .. } => Some(report),
        UploadView::QueryLogs { report } => Some(report),
        UploadView::FindRollout { report, .. } => Some(report),
        UploadView::FindGuardian { report, .. } => Some(report),
        UploadView::FindSandboxLog { report } => Some(report),
        UploadView::WriteDoctorReport { report } => Some(report),
        UploadView::Upload { report } => Some(report),
        UploadView::Done { .. } => None,
    }
}

/// Whether a state still asks for a history.
pub open spec fn asks_for_history(state: UploadView) -> bool {
    state is ReadHistory || state is ResolveHistory || state is LoadHistory
}

/// Whether a state comes before the logs are gathered, or after.
pub open spec fn gathers_no_logs(state: UploadView) -> bool {
    state is ParseThread || asks_for_history(state) || state is TakeSnapshot || state is Upload
        || state is Done
}

/// Whether the caller's tags stand in a report.
pub open spec fn caller_tags_stand(
    caller: Map<Seq<char>, Seq<char>>,
    report: ReportView,
) -> bool {
    forall|k: Seq<char>| #[trigger]
        caller.contains_key(k) ==> report.tags.contains_key(k) && report.tags[k] == caller[k]
}

/// What holds of every state that a request of a caller leads to.
pub open spec fn sound(
    state: UploadView,
    caller: Map<Seq<char>, Seq<char>>,
    include_logs: bool,
    extra_files: Seq<Seq<u8>>,
) -> bool {
    match report_of(state) {
        Some(report) => {
            &&& caller_tags_stand(caller, report)
            &&& asks_for_history(state) ==> !gives_ids(caller)
            &&& report.include_logs == include_logs
            &&& report.extra_files == extra_files
            &&& attachments::distinct_files(report.files)
            &&& state is WriteDoctorReport || state is Upload ==> forall|i: int|
                0 <= i < extra_files.len() ==> attachments::is_attached(
                    report.files,
                    #[trigger] extra_files[i],
                )
            &&& !include_logs ==> gathers_no_logs(state) && report.threads.len() == 0
                && report.logs is None && report.doctor is None
            &&& !include_logs && state is Upload ==> report.files == attachments::all_attached(
                Seq::empty(),
                extra_files,
            )
            &&& !include_logs && !(state is Upload) ==> report.files.len() == 0
        },
        None => true,
    }
}

/// The caller's tags stand in a report with the tags of a history, where they
/// give no identifier.
proof fn lemma_history_keeps_caller_tags(
    caller: Map<Seq<char>, Seq<char>>,
    report: ReportView,
    turns: Seq<Turn>,
)
    requires
        caller_tags_stand(caller, report),
        !gives_ids(caller),
    ensures
        caller_tags_stand(caller, with_history(report, turns)),
{
    let found = tags::conversation_tags(turns, report.server);
    tags::law_tags_are_valid_ids(tags::turn_items(turns), report.server);
    assert forall|k: Seq<char>| #[trigger] caller.contains_key(k) implies with_history(
        report,
        turns,
    ).tags.contains_key(k) && with_history(report, turns).tags[k] == caller[k] by {
        if found.contains_key(k) {
            assert(ids::id_prefix(k) is Some);
        }
    }
}

/// The files of a report stay distinct while more are attached.
proof fn lemma_files_stay_distinct(report: ReportView, item: Option<AttachmentView>)
    requires
        attachments::distinct_files(report.files),
    ensures
        attachments::distinct_files(with_file(report, item).files),
        attachments::distinct_files(with_extra_files(report).files),
        forall|i: int|
            0 <= i < report.extra_files.len() ==> attachments::is_attached(
                with_extra_files(report).files,
                #[trigger] report.extra_files[i],
            ),
{
    if let Some(item) = item {
        attachments::law_attachments_are_distinct(report.files, item);
    }
    attachments::law_listed_files_are_attached_once(report.files, report.extra_files);
}

/// In every state that a request leads to: the caller's tags stand; no file is
/// attached twice; the caller's files are attached at the end; and without logs
/// no thread, log, doctor's report or other file goes with the report.
pub proof fn law_a_request_starts_soundly(params: FeedbackUploadParams, setting: FeedbackSetting)
    ensures
        sound(
            started(params, setting),
            caller_tags(params),
            params.include_logs,
            first_report(params, setting).extra_files,
        ),
{
}

/// Up to the snapshot, every outcome keeps what holds of every state.
proof fn lemma_first_steps_keep_soundness(
    state: UploadView,
    event: UploadEvent,
    caller: Map<Seq<char>, Seq<char>>,
    include_logs: bool,
    extra_files: Seq<Seq<u8>>,
)
    requires
        sound(state, caller, include_logs, extra_files),
        state is ParseThread || asks_for_history(state) || state is TakeSnapshot,
    ensures
        sound(after_event(state, event), caller, include_logs, extra_files),
{
    match (state, event) {
        (UploadView::ParseThread { report, given }, UploadEvent::ThreadParsed(Ok(thread))) => {
            assert(gives_ids(caller) ==> gives_ids(report.tags));
        },
        (UploadView::ReadHistory { report, thread }, UploadEvent::LiveHistory(history)) => {
            if let LiveHistory::Loaded(turns) = history {
                lemma_history_keeps_caller_tags(caller, report, turns@);
            }
        },
        (UploadView::LoadHistory { report, path }, UploadEvent::StoredHistory(history)) => {
            if let Some(turns) = history {
                lemma_history_keeps_caller_tags(caller, report, turns@);
            }
        },
        (UploadView::TakeSnapshot { report }, UploadEvent::SnapshotTaken(thread)) => {
            let next = ReportView { snapshot_thread: thread@, ..report };
            lemma_files_stay_distinct(next, None);
            assert(!include_logs ==> report.files =~= Seq::empty());
        },
        _ => {},
    }
}

/// While threads and logs are gathered, every outcome keeps what holds of every
/// state.
proof fn lemma_log_steps_keep_soundness(
    state: UploadView,
    event: UploadEvent,
    caller: Map<Seq<char>, Seq<char>>,
    include_logs: bool,
    extra_files: Seq<Seq<u8>>,
)
    requires
        sound(state, caller, include_logs, extra_files),
        state is FlushLogs || state is ListSubtree || state is ListOpen || state is ListClosed
            || state is QueryLogs,
    ensures
        sound(after_event(state, event), caller, include_logs, extra_files),
{
}

/// While files are gathered, and to the end, every outcome keeps what holds of
/// every state.
proof fn lemma_last_steps_keep_soundness(
    state: UploadView,
    event: UploadEvent,
    caller: Map<Seq<char>, Seq<char>>,
    include_logs: bool,
    extra_files: Seq<Seq<u8>>,
)
    requires
        sound(state, caller, include_logs, extra_files),
        state is FindRollout || state is FindGuardian || state is FindSandboxLog
            || state is WriteDoctorReport || state is Upload || state is Done,
    ensures
        sound(after_event(state, event), caller, include_logs, extra_files),
{
    match (state, event) {
        (UploadView::FindRollout { report, next }, UploadEvent::RolloutResolved(found)) => {
            lemma_files_stay_distinct(report, found_file(found, None));
        },
        (UploadView::FindGuardian { report, thread }, UploadEvent::GuardianFound(found)) => {
            lemma_files_stay_distinct(
                report,
                found_file(found, Some(attachments::review_name(thread))),
            );
        },
        (UploadView::FindSandboxLog { report }, UploadEvent::SandboxLogFound(found)) => {
            let item = sandbox_file(report.windows, found);
            lemma_files_stay_distinct(report, item);
            lemma_files_stay_distinct(with_file(report, item), None);
        },
        _ => {},
    }
}

/// Whatever an outcome is, it keeps what holds of every state.
pub proof fn law_every_outcome_keeps_soundness(
    state: UploadView,
    event: UploadEvent,
    caller: Map<Seq<char>, Seq<char>>,
    include_logs: bool,
    extra_files: Seq<Seq<u8>>,
)
    requires
        sound(state, caller, include_logs, extra_files),
    ensures
        sound(after_event(state, event), caller, include_logs, extra_files),
{
    if state is ParseThread || asks_for_history(state) || state is TakeSnapshot {
        lemma_first_steps_keep_soundness(state, event, caller, include_logs, extra_files);
    } else if state is FlushLogs || state is ListSubtree || state is ListOpen || state is ListClosed
        || state is QueryLogs {
        lemma_log_steps_keep_soundness(state, event, caller, include_logs, extra_files);
    } else {
        lemma_last_steps_keep_soundness(state, event, caller, include_logs, extra_files);
    }
}

/// How many kinds of steps lie ahead of a state.
pub open spec fn stage(state: UploadView) -> nat {
    match state {
        UploadView::ParseThread { .. } => 15,
        UploadView::ReadHistory { .. } => 14,
        UploadView::ResolveHistory { .. } => 13,
        UploadView::LoadHistory { .. } => 12,
        UploadView::TakeSnapshot { .. } => 11,
        UploadView::FlushLogs { .. } => 10,
        UploadView::ListSubtree { .. } => 9,
        UploadView::ListOpen { .. } => 8,
        UploadView::ListClosed { .. } => 7,
        UploadView::QueryLogs { .. } => 6,
        UploadView::FindRollout { .. } => 5,
        UploadView::FindGuardian { .. } => 4,
        UploadView::FindSandboxLog { .. } => 3,
        UploadView::WriteDoctorReport { .. } => 2,
        UploadView::Upload { .. } => 1,
        UploadView::Done { .. } => 0,
    }
}

/// How many histories are still to be found in the same kind of step.
pub open spec fn rollouts_left(state: UploadView) -> nat {
    match state {
        UploadView::FindRollout { report, next } => if next < report.threads.len() {
            (report.threads.len() - next) as nat
        } else {
            0
        },
        _ => 0,
    }
}

/// Whether an outcome is one of what a state asks for.
pub open spec fn answers(state: UploadView, event: UploadEvent) -> bool {
    match event {
        UploadEvent::ThreadParsed(_) => state is ParseThread,
        UploadEvent::LiveHistory(_) => state is ReadHistory,
        UploadEvent::RolloutResolved(_) => state is ResolveHistory || state is FindRollout,
        UploadEvent::StoredHistory(_) => state is LoadHistory,
        UploadEvent::SnapshotTaken(_) => state is TakeSnapshot,
        UploadEvent::LogsFlushed => state is FlushLogs,
        UploadEvent::SubtreeListed(_) => state is ListSubtree,
        UploadEvent::DescendantsListed(_) => state is ListOpen || state is ListClosed,
        UploadEvent::LogsRead(_) => state is QueryLogs,
        UploadEvent::GuardianFound(_) => state is FindGuardian,
        UploadEvent::SandboxLogFound(_) => state is FindSandboxLog,
        UploadEvent::DoctorReported(_) => state is WriteDoctorReport,
        UploadEvent::Uploaded(_) => state is Upload,
    }
}

/// Every upload ends: an outcome that was asked for leads to a later kind of
/// step, or to the next history of the same kind. Any other changes nothing.
pub proof fn law_upload_makes_progress(state: UploadView, event: UploadEvent)
    ensures
        answers(state, event) ==> stage(after_event(state, event)) < stage(state) || (stage(
            after_event(state, event),
        ) == stage(state) && rollouts_left(after_event(state, event)) < rollouts_left(state)),
        !answers(state, event) ==> after_event(state, event) == state,
{
}

/// A history gives the same tags whether it comes from the live thread or from
/// where it is stored.
pub proof fn law_live_and_stored_history_agree(
    report: ReportView,
    thread: Seq<char>,
    path: Seq<u8>,
    turns: Vec<Turn>,
)
    ensures
        after_event(
            UploadView::ReadHistory { report, thread },
            UploadEvent::LiveHistory(LiveHistory::Loaded(turns)),
        ) == after_event(
            UploadView::LoadHistory { report, path },
            UploadEvent::StoredHistory(Some(turns)),
        ),
{
}

/// A caller that gives an identifier gets no tags of a history: no history is
/// asked for.
pub proof fn law_given_identifiers_bypass_the_history(report: ReportView)
    requires
        gives_ids(report.tags),
    ensures
        !asks_for_history(after_thread(report)),
        report_of(after_thread(report)) is Some,
        report_of(after_thread(report))->0.tags == report.tags,
{
}

} // verus!
