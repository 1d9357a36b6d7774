//! What each step of an upload does to the report, and what it asks for next.
use crate::feedback::attachments;
use crate::feedback::attachments::AttachmentView;
use crate::feedback::tags;
use crate::feedback::tags::Turn;
use crate::feedback::threads;
use crate::feedback::upload;
use crate::feedback::upload::DoctorReport;
use crate::feedback::upload::FeedbackErrorKind;
use crate::feedback::upload::FeedbackErrorView;
use crate::feedback::upload::FeedbackSetting;
use crate::feedback::upload::FeedbackUploadParams;
use crate::feedback::upload::LiveHistory;
use crate::feedback::upload::ReportView;
use crate::feedback::upload::SandboxLog;
use crate::feedback::upload::UploadEvent;
use crate::feedback::upload::UploadView;
use crate::path;
use crate::path::LocalPath;
use crate::text;
use vstd::prelude::*;

verus! {

/// Whether files are those of before and a new one behind them, unless that is
/// among them already.
pub open spec fn gained(
    files: Seq<AttachmentView>,
    before: Seq<AttachmentView>,
    file: Seq<u8>,
    name: Option<Seq<char>>,
) -> bool {
    &&& before.is_prefix_of(files)
    &&& attachments::is_attached(files, file)
    &&& !attachments::is_attached(before, file) ==> files == before.push(
        AttachmentView { path: file, name },
    )
    &&& attachments::is_attached(before, file) ==> files == before
}

/// Every history that is found is attached under its own name, behind what is
/// attached already, whichever thread it is of. One that is not found changes
/// nothing.
pub proof fn law_every_found_history_is_attached(report: ReportView, next: int, found: LocalPath)
    ensures
        ({
            let state = UploadView::FindRollout { report, next };
            let with = upload::report_of(
                upload::after_event(state, UploadEvent::RolloutResolved(Some(found))),
            );
            let without = upload::report_of(
                upload::after_event(state, UploadEvent::RolloutResolved(None)),
            );
            &&& with is Some
            &&& gained(with->0.files, report.files, found@, None)
            &&& without == Some(report)
        }),
{
    attachments::law_attachments_are_distinct(
        report.files,
        AttachmentView { path: found@, name: None },
    );
}

/// Every thread of a report is asked for its history, one after the other from the
/// first; behind the last one the automatic review is looked for where the report
/// is about a thread, and else the sandbox log.
pub proof fn law_every_thread_is_looked_up(
    report: ReportView,
    next: int,
    found: Option<LocalPath>,
    logs: Option<Vec<u8>>,
)
    requires
        0 <= next,
    ensures
        ({
            let after = upload::after_event(
                UploadView::FindRollout { report, next },
                UploadEvent::RolloutResolved(found),
            );
            &&& upload::report_of(after) is Some
            &&& upload::report_of(after)->0.threads == report.threads
            &&& next + 1 < report.threads.len() ==> (after matches UploadView::FindRollout {
                next: then,
                ..
            } && then == next + 1)
            &&& next + 1 >= report.threads.len() && report.thread is Some ==> (
            after matches UploadView::FindGuardian { thread, .. } && Some(thread) == report.thread)
            &&& next + 1 >= report.threads.len() && report.thread is None
                ==> after is FindSandboxLog
        }),
        report.threads.len() > 0 ==> (upload::after_event(
            UploadView::QueryLogs { report },
            UploadEvent::LogsRead(logs),
        ) matches UploadView::FindRollout { next: first, .. } && first == 0),
{
}

/// Logs that are read go with the report, unless there are none in them.
pub proof fn law_read_logs_go_along(report: ReportView, logs: Vec<u8>)
    ensures
        ({
            let state = UploadView::QueryLogs { report };
            let read = upload::report_of(
                upload::after_event(state, UploadEvent::LogsRead(Some(logs))),
            );
            let unread = upload::report_of(upload::after_event(state, UploadEvent::LogsRead(None)));
            &&& read is Some && unread is Some
            &&& logs@.len() > 0 ==> read->0.logs == Some(logs@)
            &&& logs@.len() == 0 ==> read->0.logs is None
            &&& unread->0.logs is None
        }),
{
}

/// The threads of a report, where the tree can be listed: the root, and behind it
/// the listed descendants.
pub proof fn law_listed_tree_is_taken(report: ReportView, thread: Seq<char>, listed: Vec<String>)
    ensures
        ({
            let after = upload::after_event(
                UploadView::ListSubtree { report, thread },
                UploadEvent::SubtreeListed(Some(listed)),
            );
            &&& upload::report_of(after) is Some
            &&& upload::report_of(after)->0.threads.len() > 0
            &&& upload::report_of(after)->0.threads[0] == thread
            &&& upload::report_of(after)->0.threads == threads::feedback_threads(
                thread,
                text::texts(listed@),
            )
            &&& listed@.len() <= 8 ==> forall|i: int|
                0 <= i < listed@.len() ==> upload::report_of(after)->0.threads.contains(
                    (#[trigger] listed@[i])@,
                )
            &&& report.has_state_db ==> after is QueryLogs
            &&& !report.has_state_db ==> (after matches UploadView::FindRollout { next, .. } && next
                == 0)
        }),
{
    let ids = text::texts(listed@);
    threads::law_root_comes_first_and_once(thread, ids);
    let taken = threads::feedback_threads(thread, ids);
    assert forall|i: int| ids.len() <= 8 && 0 <= i < listed@.len() implies taken.contains(
        (#[trigger] listed@[i])@,
    ) by {
        assert(ids[i] == listed@[i]@);
        assert(ids.contains(ids[i]));
        threads::law_threads_are_listed(thread, ids, ids[i]);
    }
}

/// What the stored listing of a tree holds: the root, and both kinds of
/// descendants as far as they could be listed.
pub proof fn law_stored_listing_has_both_kinds(
    root: Seq<char>,
    open: Option<Seq<Seq<char>>>,
    closed: Option<Seq<Seq<char>>>,
    id: Seq<char>,
)
    ensures
        threads::stored_listing(root, open, closed).contains(id) <==> id == root || (open is Some
            && open->0.contains(id)) || (closed is Some && closed->0.contains(id)),
        threads::stored_listing(root, open, closed).len() == 1 + (if open is Some {
            open->0.len()
        } else {
            0
        }) + (if closed is Some {
            closed->0.len()
        } else {
            0
        }),
{
    let listing = threads::stored_listing(root, open, closed);
    let a = match open {
        Some(ids) => ids,
        None => Seq::empty(),
    };
    let b = match closed {
        Some(ids) => ids,
        None => Seq::empty(),
    };
    assert(listing =~= seq![root] + a + b);
    if listing.contains(id) {
        let i = choose|i: int| 0 <= i < listing.len() && listing[i] == id;
        if 0 < i <= a.len() {
            assert(a[i - 1] == id);
        } else if a.len() < i {
            assert(b[i - 1 - a.len()] == id);
        }
    }
    if id == root {
        assert(listing[0] == id);
    }
    if a.contains(id) {
        let i = choose|i: int| 0 <= i < a.len() && a[i] == id;
        assert(listing[i + 1] == id);
    }
    if b.contains(id) {
        let i = choose|i: int| 0 <= i < b.len() && b[i] == id;
        assert(listing[i + 1 + a.len()] == id);
    }
}

/// Where the tree cannot be listed, the state database is asked for the open and
/// then for the closed descendants, and those of both that it names are taken. With
/// no database the root stands alone.
pub proof fn law_stored_tree_stands_in(
    report: ReportView,
    thread: Seq<char>,
    open: Option<Vec<String>>,
    closed: Option<Vec<String>>,
    id: Seq<char>,
)
    ensures
        ({
            let first = upload::after_event(
                UploadView::ListSubtree { report, thread },
                UploadEvent::SubtreeListed(None),
            );
            let second = upload::after_event(
                UploadView::ListOpen { report, thread },
                UploadEvent::DescendantsListed(open),
            );
            let third = upload::after_event(second, UploadEvent::DescendantsListed(closed));
            let names = (open is Some && text::texts(open->0@).contains(id)) || (closed is Some
                && text::texts(closed->0@).contains(id));
            let count = 1 + (if open is Some {
                open->0@.len()
            } else {
                0
            }) + (if closed is Some {
                closed->0@.len()
            } else {
                0
            });
            &&& report.has_state_db ==> first == (UploadView::ListOpen { report, thread })
            &&& !report.has_state_db ==> upload::report_of(first) is Some
                && upload::report_of(first)->0.threads == seq![thread]
            &&& second is ListClosed && upload::report_of(second) == Some(report)
            &&& upload::report_of(third) is Some
            &&& upload::report_of(third)->0.threads.len() > 0
                && upload::report_of(third)->0.threads[0] == thread
            &&& count <= 8 && names ==> upload::report_of(third)->0.threads.contains(id)
            &&& upload::report_of(third)->0.threads.contains(id) ==> names || id == thread
        }),
{
    let open_ids = threads::optional_texts(open);
    let closed_ids = threads::optional_texts(closed);
    let listing = threads::stored_listing(thread, open_ids, closed_ids);
    law_stored_listing_has_both_kinds(thread, open_ids, closed_ids, id);
    threads::law_root_comes_first_and_once(thread, listing);
    threads::law_threads_are_listed(thread, listing, id);
    let alone = threads::stored_listing(thread, None, None);
    threads::law_root_comes_first_and_once(thread, alone);
    let taken = threads::feedback_threads(thread, alone);
    law_stored_listing_has_both_kinds(thread, None, None, thread);
    if taken.len() > 1 {
        assert(taken.contains(taken[1]));
        threads::law_threads_are_listed(thread, alone, taken[1]);
        law_stored_listing_has_both_kinds(thread, None, None, taken[1]);
    }
    assert(taken =~= seq![thread]);
}

/// The tags of a history come into the report: each of its tags stands, and the
/// tags of before stand where it has none. A history that cannot be had changes
/// nothing. Either way the snapshot is taken next.
pub proof fn law_history_tags_come_in(
    report: ReportView,
    thread: Seq<char>,
    path: Seq<u8>,
    turns: Vec<Turn>,
    key: Seq<char>,
)
    ensures
        ({
            let live = UploadView::ReadHistory { report, thread };
            let stored = UploadView::LoadHistory { report, path };
            let found = tags::conversation_tags(turns@, report.server);
            let after = upload::after_event(
                live,
                UploadEvent::LiveHistory(LiveHistory::Loaded(turns)),
            );
            &&& after is TakeSnapshot
            &&& after == upload::after_event(stored, UploadEvent::StoredHistory(Some(turns)))
            &&& upload::report_of(after)->0.tags.contains_key(key) <==> report.tags.contains_key(
                key,
            ) || found.contains_key(key)
            &&& found.contains_key(key) ==> upload::report_of(after)->0.tags[key] == found[key]
            &&& !found.contains_key(key) && report.tags.contains_key(key)
                ==> upload::report_of(after)->0.tags[key] == report.tags[key]
            &&& upload::after_event(live, UploadEvent::LiveHistory(LiveHistory::Unreadable)) == (
            UploadView::TakeSnapshot { report })
            &&& upload::after_event(stored, UploadEvent::StoredHistory(None)) == (
            UploadView::TakeSnapshot { report })
        }),
{
}

/// A thread that is not live is looked for where its history is stored, and read
/// there; where it is nowhere, the report goes on without it.
pub proof fn law_stored_history_is_looked_for(
    report: ReportView,
    thread: Seq<char>,
    found: LocalPath,
)
    ensures
        upload::after_event(
            UploadView::ReadHistory { report, thread },
            UploadEvent::LiveHistory(LiveHistory::NotLive),
        ) == (UploadView::ResolveHistory { report, thread }),
        upload::after_event(
            UploadView::ResolveHistory { report, thread },
            UploadEvent::RolloutResolved(Some(found)),
        ) == (UploadView::LoadHistory { report, path: found@ }),
        upload::after_event(
            UploadView::ResolveHistory { report, thread },
            UploadEvent::RolloutResolved(None),
        ) == (UploadView::TakeSnapshot { report }),
{
}

/// A thread id that reads as one becomes the thread of the report, and its history
/// is asked for unless the caller gives one of the identifiers. One that does not
/// ends the upload.
pub proof fn law_thread_ids_are_read(report: ReportView, given: Seq<char>, id: String)
    ensures
        ({
            let state = UploadView::ParseThread { report, given };
            let after = upload::after_event(state, UploadEvent::ThreadParsed(Ok(id)));
            let ids_given = report.tags.contains_key("project_id"@) || report.tags.contains_key(
                "deployment_id"@,
            ) || report.tags.contains_key("version_id"@);
            &&& upload::report_of(after) == Some(ReportView { thread: Some(id@), ..report })
            &&& !ids_given ==> (after matches UploadView::ReadHistory { thread, .. } && thread
                == id@)
            &&& ids_given ==> after is TakeSnapshot
            &&& upload::after_event(state, UploadEvent::ThreadParsed(Err(id))) == (
            UploadView::Done {
                result: Err(
                    FeedbackErrorView {
                        kind: FeedbackErrorKind::InvalidRequest,
                        message: "invalid thread id: "@ + id@,
                    },
                ),
            })
        }),
{
}

/// A request becomes a report with just what it asks for, or is refused where
/// feedback is disabled.
pub proof fn law_request_becomes_a_report(params: FeedbackUploadParams, setting: FeedbackSetting)
    ensures
        ({
            let state = upload::started(params, setting);
            &&& !setting.feedback_enabled ==> state == (UploadView::Done {
                result: Err(
                    FeedbackErrorView {
                        kind: FeedbackErrorKind::InvalidRequest,
                        message: "sending feedback is disabled by configuration"@,
                    },
                ),
            })
            &&& setting.feedback_enabled ==> upload::report_of(state) is Some && ({
                let report = upload::report_of(state)->0;
                &&& report.classification == params.classification@
                &&& params.reason matches Some(reason) ==> report.reason == Some(reason@)
                &&& params.reason is None ==> report.reason is None
                &&& report.include_logs == params.include_logs
                &&& report.has_state_db == setting.has_state_db
                &&& report.windows == setting.windows
                &&& report.server == setting.apps_server_name@
                &&& params.tags matches Some(tags) ==> report.tags == tags@
                &&& params.tags is None ==> report.tags == Map::<Seq<char>, Seq<char>>::empty()
                &&& params.extra_log_files matches Some(files) ==> report.extra_files
                    == path::paths_view(files@)
                &&& params.extra_log_files is None ==> report.extra_files.len() == 0
                &&& report.threads.len() == 0 && report.files.len() == 0
                &&& report.thread is None && report.logs is None && report.doctor is None
            })
            &&& setting.feedback_enabled && params.thread_id is Some ==> (
            state matches UploadView::ParseThread { given, .. } && given == params.thread_id->0@)
            &&& setting.feedback_enabled && params.thread_id is None ==> state is TakeSnapshot
        }),
{
}

/// Once the snapshot is taken, a report with logs goes on to gather them: the logs
/// are flushed and the tree of its thread is listed. A report without logs is ready,
/// with the files of the caller.
pub proof fn law_logs_are_gathered_on_demand(report: ReportView, snapshot: String)
    ensures
        ({
            let after = upload::after_event(
                UploadView::TakeSnapshot { report },
                UploadEvent::SnapshotTaken(snapshot),
            );
            let flushed = upload::after_event(
                UploadView::FlushLogs { report },
                UploadEvent::LogsFlushed,
            );
            &&& upload::report_of(after) is Some
            &&& upload::report_of(after)->0.snapshot_thread == snapshot@
            &&& report.include_logs ==> after is FlushLogs && upload::report_of(after)->0.files
                == report.files
            &&& !report.include_logs ==> after is Upload
            &&& !report.include_logs ==> forall|i: int|
                0 <= i < report.extra_files.len() ==> attachments::is_attached(
                    upload::report_of(after)->0.files,
                    #[trigger] report.extra_files[i],
                )
            &&& report.thread is Some ==> flushed == (UploadView::ListSubtree {
                report,
                thread: report.thread->0,
            })
            &&& report.thread is None && report.threads.len() == 0 ==> flushed == (
            UploadView::FindSandboxLog { report })
        }),
{
    attachments::law_listed_files_are_attached_once(report.files, report.extra_files);
}

/// The history of the automatic review is attached under a name of its own, made of
/// the thread.
pub proof fn law_review_history_is_attached(
    report: ReportView,
    thread: Seq<char>,
    found: LocalPath,
)
    ensures
        ({
            let state = UploadView::FindGuardian { report, thread };
            let with = upload::after_event(state, UploadEvent::GuardianFound(Some(found)));
            &&& with is FindSandboxLog
            &&& gained(
                upload::report_of(with)->0.files,
                report.files,
                found@,
                Some("auto-review-rollout-"@ + thread + ".jsonl"@),
            )
            &&& upload::after_event(state, UploadEvent::GuardianFound(None)) == (
            UploadView::FindSandboxLog { report })
        }),
{
    attachments::law_attachments_are_distinct(
        report.files,
        AttachmentView {
            path: found@,
            name: Some("auto-review-rollout-"@ + thread + ".jsonl"@),
        },
    );
}

/// The sandbox log is attached on Windows where it is a file, and nowhere else; the
/// files of the caller follow, and the doctor is asked next.
pub proof fn law_sandbox_log_is_attached_on_windows(report: ReportView, log: SandboxLog)
    ensures
        ({
            let state = UploadView::FindSandboxLog { report };
            let with = upload::after_event(state, UploadEvent::SandboxLogFound(Some(log)));
            let without = upload::after_event(state, UploadEvent::SandboxLogFound(None));
            let item = AttachmentView { path: log.path@, name: Some(log.filename@) };
            &&& with is WriteDoctorReport && without is WriteDoctorReport
            &&& report.windows && log.is_file ==> attachments::is_attached(
                upload::report_of(with)->0.files,
                log.path@,
            )
            &&& report.windows && log.is_file && !attachments::is_attached(report.files, log.path@)
                ==> report.files.push(item).is_prefix_of(upload::report_of(with)->0.files)
            &&& !(report.windows && log.is_file) ==> with == without
            &&& report.files.is_prefix_of(upload::report_of(without)->0.files)
            &&& report.extra_files.len() == 0 ==> upload::report_of(without)->0.files
                == report.files
            &&& forall|i: int|
                0 <= i < report.extra_files.len() ==> attachments::is_attached(
                    upload::report_of(with)->0.files,
                    #[trigger] report.extra_files[i],
                ) && attachments::is_attached(
                    upload::report_of(without)->0.files,
                    report.extra_files[i],
                )
        }),
{
    let item = AttachmentView { path: log.path@, name: Some(log.filename@) };
    attachments::law_attachments_are_distinct(report.files, item);
    attachments::law_listed_files_are_attached_once(report.files, report.extra_files);
    let with = attachments::attached(report.files, item);
    attachments::law_listed_files_are_attached_once(with, report.extra_files);
    let all = attachments::all_attached(with, report.extra_files);
    let i = choose|i: int|
        0 <= i < with.len() && path::same_location((#[trigger] with[i]).path, item.path);
    assert(all[i] == with[i]);
}

/// The files of the caller come one by one, each under its own name and only where
/// it is not attached yet.
pub proof fn law_callers_files_come_in_order(
    files: Seq<AttachmentView>,
    extra: Seq<Seq<u8>>,
    last: Seq<u8>,
)
    ensures
        attachments::all_attached(files, Seq::empty()) == files,
        gained(
            attachments::all_attached(files, extra.push(last)),
            attachments::all_attached(files, extra),
            last,
            None,
        ),
{
    assert(extra.push(last).drop_last() =~= extra);
    attachments::law_attachments_are_distinct(
        attachments::all_attached(files, extra),
        AttachmentView { path: last, name: None },
    );
}

/// The doctor's report goes along, and its tags come in where there are none of the
/// same name.
pub proof fn law_doctors_report_goes_along(
    report: ReportView,
    doctor: DoctorReport,
    key: Seq<char>,
)
    ensures
        ({
            let state = UploadView::WriteDoctorReport { report };
            let with = upload::after_event(state, UploadEvent::DoctorReported(Some(doctor)));
            &&& with is Upload
            &&& upload::report_of(with)->0.doctor == Some(doctor.attachment@)
            &&& upload::report_of(with)->0.tags.contains_key(key) <==> report.tags.contains_key(
                key,
            ) || doctor.tags@.contains_key(key)
            &&& report.tags.contains_key(key) ==> upload::report_of(with)->0.tags[key]
                == report.tags[key]
            &&& !report.tags.contains_key(key) && doctor.tags@.contains_key(key)
                ==> upload::report_of(with)->0.tags[key] == doctor.tags@[key]
            &&& upload::after_event(state, UploadEvent::DoctorReported(None)) == (
            UploadView::Upload { report })
        }),
{
}

/// An upload that succeeds answers with the thread of the snapshot, and one that
/// fails with the reason.
pub proof fn law_upload_is_answered(report: ReportView, detail: String)
    ensures
        upload::after_event(UploadView::Upload { report }, UploadEvent::Uploaded(Ok(()))) == (
        UploadView::Done { result: Ok(report.snapshot_thread) }),
        upload::after_event(UploadView::Upload { report }, UploadEvent::Uploaded(Err(detail))) == (
        UploadView::Done {
            result: Err(
                FeedbackErrorView {
                    kind: FeedbackErrorKind::Internal,
                    message: "failed to upload feedback: "@ + detail@,
                },
            ),
        }),
{
}

/// Whether a report went into another one by a step of a state: what the request
/// asked for stays, and each part of a report changes in its own steps only. Files
/// are only ever added.
pub open spec fn kept_to_its_own(state: UploadView, a: ReportView, b: ReportView) -> bool {
    &&& b.classification == a.classification && b.reason == a.reason
    &&& b.include_logs == a.include_logs && b.has_state_db == a.has_state_db
    &&& b.windows == a.windows && b.server == a.server && b.extra_files == a.extra_files
    &&& b.thread == a.thread || state is ParseThread
    &&& b.snapshot_thread == a.snapshot_thread || state is TakeSnapshot
    &&& b.tags == a.tags || state is ReadHistory || state is LoadHistory
        || state is WriteDoctorReport
    &&& b.threads == a.threads || state is ListSubtree || state is ListClosed
    &&& b.logs == a.logs || state is QueryLogs
    &&& b.doctor == a.doctor || state is WriteDoctorReport
    &&& a.files.is_prefix_of(b.files)
    &&& b.files == a.files || state is TakeSnapshot || state is FindRollout || state is FindGuardian
        || state is FindSandboxLog
}

proof fn lemma_first_steps_keep_to_their_own(state: UploadView, event: UploadEvent)
    requires
        state is ParseThread || upload::asks_for_history(state) || state is TakeSnapshot,
        upload::report_of(upload::after_event(state, event)) is Some,
    ensures
        kept_to_its_own(
            state,
            upload::report_of(state)->0,
            upload::report_of(upload::after_event(state, event))->0,
        ),
{
    let a = upload::report_of(state)->0;
    attachments::law_listed_files_are_attached_once(a.files, a.extra_files);
    assert(a.files.take(a.files.len() as int) =~= a.files);
}

proof fn lemma_log_steps_keep_to_their_own(state: UploadView, event: UploadEvent)
    requires
        state is FlushLogs || state is ListSubtree || state is ListOpen || state is ListClosed
            || state is QueryLogs,
        upload::report_of(upload::after_event(state, event)) is Some,
    ensures
        kept_to_its_own(
            state,
            upload::report_of(state)->0,
            upload::report_of(upload::after_event(state, event))->0,
        ),
{
    let a = upload::report_of(state)->0;
    assert(a.files.take(a.files.len() as int) =~= a.files);
}

proof fn lemma_last_steps_keep_to_their_own(state: UploadView, event: UploadEvent)
    requires
        state is FindRollout || state is FindGuardian || state is FindSandboxLog
            || state is WriteDoctorReport || state is Upload,
        upload::report_of(upload::after_event(state, event)) is Some,
    ensures
        kept_to_its_own(
            state,
            upload::report_of(state)->0,
            upload::report_of(upload::after_event(state, event))->0,
        ),
{
    let a = upload::report_of(state)->0;
    assert(a.files.take(a.files.len() as int) =~= a.files);
    match (state, event) {
        (UploadView::FindRollout { report, next }, UploadEvent::RolloutResolved(Some(found))) => {
            law_every_found_history_is_attached(report, next, found);
        },
        (UploadView::FindGuardian { report, thread }, UploadEvent::GuardianFound(Some(found))) => {
            law_review_history_is_attached(report, thread, found);
        },
        (UploadView::FindSandboxLog { report }, UploadEvent::SandboxLogFound(found)) => {
            attachments::law_listed_files_are_attached_once(report.files, report.extra_files);
            if let Some(log) = found {
                let item = AttachmentView { path: log.path@, name: Some(log.filename@) };
                attachments::law_attachments_are_distinct(report.files, item);
                let with = attachments::attached(report.files, item);
                attachments::law_listed_files_are_attached_once(with, report.extra_files);
                let all = attachments::all_attached(with, report.extra_files);
                assert(all.take(report.files.len() as int) =~= report.files);
            }
        },
        _ => {},
    }
}

/// No step touches what is not its own.
pub proof fn law_steps_keep_to_their_own(state: UploadView, event: UploadEvent)
    requires
        upload::report_of(state) is Some,
        upload::report_of(upload::after_event(state, event)) is Some,
    ensures
        kept_to_its_own(
            state,
            upload::report_of(state)->0,
            upload::report_of(upload::after_event(state, event))->0,
        ),
{
    if state is ParseThread || upload::asks_for_history(state) || state is TakeSnapshot {
        lemma_first_steps_keep_to_their_own(state, event);
    } else if state is FlushLogs || state is ListSubtree || state is ListOpen || state is ListClosed
        || state is QueryLogs {
        lemma_log_steps_keep_to_their_own(state, event);
    } else {
        lemma_last_steps_keep_to_their_own(state, event);
    }
}

} // verus!
