//! The files that go with a feedback report, each of them once.
use crate::path;
use crate::path::LocalPath;
use vstd::prelude::*;

verus! {

/// A file that goes with a report, under its own name or another.
#[derive(Debug, PartialEq, Eq)]
pub struct FeedbackAttachmentPath {
    pub path: LocalPath,
    pub attachment_filename_override: Option<String>,
}

/// The contents of an attachment.
pub struct AttachmentView {
    pub path: Seq<u8>,
    pub name: Option<Seq<char>>,
}

/// The text of a name that may be missing.
pub open spec fn name_view(name: Option<String>) -> Option<Seq<char>> {
    match name {
        Some(name) => Some(name@),
        None => None,
    }
}

impl View for FeedbackAttachmentPath {
    type V = AttachmentView;

    open spec fn view(&self) -> AttachmentView {
        AttachmentView { path: self.path@, name: name_view(self.attachment_filename_override) }
    }
}

/// The contents of a list of attachments.
pub open spec fn attachments_view(list: Seq<FeedbackAttachmentPath>) -> Seq<AttachmentView> {
    list.map_values(|a: FeedbackAttachmentPath| a@)
}

/// Whether a file is among the attachments.
pub open spec fn is_attached(list: Seq<AttachmentView>, file: Seq<u8>) -> bool {
    exists|i: int| 0 <= i < list.len() && path::same_location((#[trigger] list[i]).path, file)
}

/// The attachments once a file is among them.
pub open spec fn attached(list: Seq<AttachmentView>, item: AttachmentView) -> Seq<AttachmentView> {
    if is_attached(list, item.path) {
        list
    } else {
        list.push(item)
    }
}

/// The attachments once an optional file is among them.
pub open spec fn attached_if(
    list: Seq<AttachmentView>,
    item: Option<AttachmentView>,
) -> Seq<AttachmentView> {
    match item {
        Some(item) => attached(list, item),
        None => list,
    }
}

/// A file under its own name.
pub open spec fn plain(file: Seq<u8>) -> AttachmentView {
    AttachmentView { path: file, name: None }
}

/// The attachments once the files of a list are among them, under their own names.
pub open spec fn all_attached(
    list: Seq<AttachmentView>,
    files: Seq<Seq<u8>>,
) -> Seq<AttachmentView>
    decreases files.len(),
{
    if files.len() == 0 {
        list
    } else {
        attached(all_attached(list, files.drop_last()), plain(files.last()))
    }
}

/// The name of the file that holds the history of an automatic review.
pub open spec fn review_name(thread_id: Seq<char>) -> Seq<char> {
    "auto-review-rollout-"@ + thread_id + ".jsonl"@
}

/// Adds a file to the attachments, unless it is among them already.
pub fn attach(list: &mut Vec<FeedbackAttachmentPath>, item: FeedbackAttachmentPath)
    ensures
        attachments_view(final(list)@) == attached(attachments_view(old(list)@), item@),
{
    let n: usize = list.len();
    let mut i: usize = 0;
    while i < n
        invariant
            n == list@.len(),
            i <= n,
            list@ == old(list)@,
            forall|k: int|
                0 <= k < i ==> !path::same_location(
                    (#[trigger] attachments_view(list@)[k]).path,
                    item@.path,
                ),
        decreases n - i,
    {
        assert(attachments_view(list@)[i as int] == list@[i as int]@);
        if list[i].path.same_as(&item.path) {
            return ;
        }
        i += 1;
    }
    list.push(item);
    assert(attachments_view(list@) =~= attachments_view(old(list)@).push(item@));
}

/// Adds files to the attachments under their own names, each one unless it is
/// among them already.
pub fn attach_all(list: &mut Vec<FeedbackAttachmentPath>, files: &Vec<LocalPath>)
    ensures
        attachments_view(final(list)@) == all_attached(
            attachments_view(old(list)@),
            path::paths_view(files@),
        ),
{
    let ghost start = attachments_view(list@);
    let ghost names = path::paths_view(files@);
    let n: usize = files.len();
    let mut i: usize = 0;
    while i < n
        invariant
            n == files@.len(),
            i <= n,
            names == path::paths_view(files@),
            attachments_view(list@) == all_attached(start, names.take(i as int)),
        decreases n - i,
    {
        proof {
            assert(names.take(i + 1).drop_last() =~= names.take(i as int));
            assert(names.take(i + 1).last() == files@[i as int]@);
        }
        attach(
            list,
            FeedbackAttachmentPath {
                path: files[i].duplicate(),
                attachment_filename_override: None,
            },
        );
        i += 1;
    }
    assert(names.take(n as int) =~= names);
}

/// The name of the file that holds the history of an automatic review.
pub fn auto_review_rollout_filename(thread_id: &str) -> (r: String)
    ensures
        r@ == review_name(thread_id@),
{
    let mut name: String = "auto-review-rollout-".to_string();
    name.append(thread_id);
    name.append(".jsonl");
    name
}

/// The sandbox log as an attachment under a given name, on Windows and where its
/// path is that of a file. Nowhere else there is one.
pub fn windows_sandbox_log_attachment(
    windows: bool,
    sandbox_log_path: LocalPath,
    is_file: bool,
    filename: &str,
) -> (r: Option<FeedbackAttachmentPath>)
    ensures
        r is Some <==> windows && is_file,
        r matches Some(item) ==> item@ == (AttachmentView {
            path: sandbox_log_path@,
            name: Some(filename@),
        }),
{
    if windows && is_file {
        Some(
            FeedbackAttachmentPath {
                path: sandbox_log_path,
                attachment_filename_override: Some(filename.to_string()),
            },
        )
    } else {
        None
    }
}

/// Whether no two attachments are the same file.
pub open spec fn distinct_files(list: Seq<AttachmentView>) -> bool {
    forall|i: int, j: int|
        0 <= i < j < list.len() ==> !path::same_location(
            (#[trigger] list[i]).path,
            (#[trigger] list[j]).path,
        )
}

/// Attaching never attaches a file twice, keeps what was attached first in its
/// place and under its name, and leaves the file among the attachments.
pub proof fn law_attachments_are_distinct(list: Seq<AttachmentView>, item: AttachmentView)
    ensures
        distinct_files(list) ==> distinct_files(attached(list, item)),
        list.is_prefix_of(attached(list, item)),
        is_attached(attached(list, item), item.path),
{
    path::law_same_location_is_equivalence(item.path, item.path, item.path);
    if !is_attached(list, item.path) {
        assert(attached(list, item)[list.len() as int] == item);
    }
}

/// The same holds of a list of files.
pub proof fn law_listed_files_are_attached_once(list: Seq<AttachmentView>, files: Seq<Seq<u8>>)
    ensures
        distinct_files(list) ==> distinct_files(all_attached(list, files)),
        list.is_prefix_of(all_attached(list, files)),
        forall|i: int|
            0 <= i < files.len() ==> is_attached(all_attached(list, files), #[trigger] files[i]),
    decreases files.len(),
{
    if files.len() > 0 {
        let front = files.drop_last();
        let mid = all_attached(list, front);
        law_listed_files_are_attached_once(list, front);
        law_attachments_are_distinct(mid, plain(files.last()));
        assert forall|i: int| 0 <= i < files.len() implies is_attached(
            all_attached(list, files),
            #[trigger] files[i],
        ) by {
            if i < files.len() - 1 {
                assert(front[i] == files[i]);
                let k = choose|k: int|
                    0 <= k < mid.len() && path::same_location((#[trigger] mid[k]).path, files[i]);
                assert(all_attached(list, files)[k] == mid[k]);
            }
        }
    }
}

} // verus!
