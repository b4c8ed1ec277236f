//! Snapshots of files and what changes between two of them.
use vstd::prelude::*;
use crate::measure::{byte_len, text_len};
use crate::path::{normalize_path, normalized};
use crate::rollback::diff::{
    diff_text, diff_text_reads_back, line_diff, read_side, render_line_diff,
};
use crate::text::{copy_opt, lines, opt_view, owned, split_lines};
use crate::text_laws::lines_hold_no_feeds;
use crate::tools::tool::{FileState, FileStateView};

verus! {

/// A file at one moment: whether it was there, and what it held.
#[derive(Debug, PartialEq, Eq)]
pub struct FileSnapshot {
    pub path: String,
    pub existed: bool,
    pub content: Option<String>,
}

/// The value of a `FileSnapshot`.
pub struct FileSnapshotView {
    pub path: Seq<char>,
    pub existed: bool,
    pub content: Option<Seq<char>>,
}

impl View for FileSnapshot {
    type V = FileSnapshotView;

    open spec fn view(&self) -> FileSnapshotView {
        FileSnapshotView {
            path: self.path@,
            existed: self.existed,
            content: opt_view(self.content),
        }
    }
}

impl Clone for FileSnapshot {
    fn clone(&self) -> (r: Self)
        ensures
            r@ == self@,
    {
        FileSnapshot {
            path: self.path.clone(),
            existed: self.existed,
            content: copy_opt(&self.content),
        }
    }
}

/// The values of a list of `FileSnapshot`.
pub open spec fn file_snapshot_views(s: Seq<FileSnapshot>) -> Seq<FileSnapshotView> {
    Seq::new(s.len(), |i: int| s[i]@)
}

/// A copy of a list of `FileSnapshot`.
pub fn copy_file_snapshots(v: &Vec<FileSnapshot>) -> (r: Vec<FileSnapshot>)
    ensures
        file_snapshot_views(r@) == file_snapshot_views(v@),
{
    let mut r: Vec<FileSnapshot> = Vec::new();
    let mut i: usize = 0;
    let ghost all = file_snapshot_views(v@);
    while i < v.len()
        invariant
            i <= v@.len(),
            all == file_snapshot_views(v@),
            file_snapshot_views(r@) == all.take(i as int),
        decreases v.len() - i,
    {
        let x = v[i].clone();
        proof {
            assert(file_snapshot_views(r@.push(x)) =~= file_snapshot_views(r@).push(x@));
            assert(all.take(i + 1) =~= all.take(i as int).push(v@[i as int]@));
        }
        r.push(x);
        i += 1;
    }
    proof {
        assert(all.take(v@.len() as int) =~= all);
    }
    r
}

/// Why going back is not possible.
#[derive(Debug, PartialEq, Eq)]
pub enum RollbackError {
    OutsideWorkspace { path: String, root: String },
    WorkspaceRoot,
    NotRelative { path: String },
    NotAFile { path: String },
    ReadFailed { path: String, reason: String },
    ResolveFailed { path: String, reason: String },
    InvalidRecordId { id: String },
    NoRecordId,
    NotInRecord { path: String, record: String },
    RestoreFailed { path: String, reason: String },
    DeleteFailed { path: String, reason: String },
    CreateDirectory { path: String, reason: String },
    RecordDirectory { path: String, reason: String },
    SaveFailed { id: String, reason: String },
    SerializeFailed { reason: String },
    /// The tool itself failed, for this reason.
    Interrupted { reason: String },
    /// The reply does not answer the step.
    UnexpectedReply,
}

/// The value of a `RollbackError`.
pub enum RollbackErrorView {
    OutsideWorkspace { path: Seq<char>, root: Seq<char> },
    WorkspaceRoot,
    NotRelative { path: Seq<char> },
    NotAFile { path: Seq<char> },
    ReadFailed { path: Seq<char>, reason: Seq<char> },
    ResolveFailed { path: Seq<char>, reason: Seq<char> },
    InvalidRecordId { id: Seq<char> },
    NoRecordId,
    NotInRecord { path: Seq<char>, record: Seq<char> },
    RestoreFailed { path: Seq<char>, reason: Seq<char> },
    DeleteFailed { path: Seq<char>, reason: Seq<char> },
    CreateDirectory { path: Seq<char>, reason: Seq<char> },
    RecordDirectory { path: Seq<char>, reason: Seq<char> },
    SaveFailed { id: Seq<char>, reason: Seq<char> },
    SerializeFailed { reason: Seq<char> },
    Interrupted { reason: Seq<char> },
    UnexpectedReply,
}

impl View for RollbackError {
    type V = RollbackErrorView;

    open spec fn view(&self) -> RollbackErrorView {
        match self {
            RollbackError::OutsideWorkspace { path, root } => RollbackErrorView::OutsideWorkspace {
                path: path@,
                root: root@,
            },
            RollbackError::WorkspaceRoot => RollbackErrorView::WorkspaceRoot,
            RollbackError::NotRelative { path } => RollbackErrorView::NotRelative {
                path: path@,
            },
            RollbackError::NotAFile { path } => RollbackErrorView::NotAFile {
                path: path@,
            },
            RollbackError::ReadFailed { path, reason } => RollbackErrorView::ReadFailed {
                path: path@,
                reason: reason@,
            },
            RollbackError::ResolveFailed { path, reason } => RollbackErrorView::ResolveFailed {
                path: path@,
                reason: reason@,
            },
            RollbackError::InvalidRecordId { id } => RollbackErrorView::InvalidRecordId {
                id: id@,
            },
            RollbackError::NoRecordId => RollbackErrorView::NoRecordId,
            RollbackError::NotInRecord { path, record } => RollbackErrorView::NotInRecord {
                path: path@,
                record: record@,
            },
            RollbackError::RestoreFailed { path, reason } => RollbackErrorView::RestoreFailed {
                path: path@,
                reason: reason@,
            },
            RollbackError::DeleteFailed { path, reason } => RollbackErrorView::DeleteFailed {
                path: path@,
                reason: reason@,
            },
            RollbackError::CreateDirectory { path, reason } => RollbackErrorView::CreateDirectory {
                path: path@,
                reason: reason@,
            },
            RollbackError::RecordDirectory { path, reason } => RollbackErrorView::RecordDirectory {
                path: path@,
                reason: reason@,
            },
            RollbackError::SaveFailed { id, reason } => RollbackErrorView::SaveFailed {
                id: id@,
                reason: reason@,
            },
            RollbackError::SerializeFailed { reason } => RollbackErrorView::SerializeFailed {
                reason: reason@,
            },
            RollbackError::Interrupted { reason } => RollbackErrorView::Interrupted {
                reason: reason@,
            },
            RollbackError::UnexpectedReply => RollbackErrorView::UnexpectedReply,
        }
    }
}
/// The text of a rollback error.
pub open spec fn rollback_error_text(e: RollbackErrorView) -> Seq<char> {
    match e {
        RollbackErrorView::OutsideWorkspace { path, root } => "path "@ + path
            + " is outside workspace "@ + root,
        RollbackErrorView::WorkspaceRoot => "workspace root cannot be used as a rollback file target"@,
        RollbackErrorView::NotRelative { path } => "rollback record path must be relative: "@
            + path,
        RollbackErrorView::NotAFile { path } => "rollback target is not a file: "@ + path,
        RollbackErrorView::ReadFailed { path, reason } => "failed to read snapshot "@ + path
            + ": "@ + reason,
        RollbackErrorView::ResolveFailed { path, reason } => "failed to resolve "@ + path + ": "@
            + reason,
        RollbackErrorView::InvalidRecordId { id } => "invalid rollback record id: "@ + id,
        RollbackErrorView::NoRecordId => "failed to allocate rollback record id"@,
        RollbackErrorView::NotInRecord { path, record } => "file "@ + path
            + " is not part of rollback record "@ + record,
        RollbackErrorView::RestoreFailed { path, reason } => "failed to restore "@ + path + ": "@
            + reason,
        RollbackErrorView::DeleteFailed { path, reason } => "failed to delete "@ + path + ": "@
            + reason,
        RollbackErrorView::CreateDirectory { path, reason } => "failed to create directory "@ + path
            + ": "@ + reason,
        RollbackErrorView::RecordDirectory { path, reason } => "failed to create "@ + path
            + ": "@ + reason,
        RollbackErrorView::SaveFailed { id, reason } => "failed to write rollback record "@ + id
            + ": "@ + reason,
        RollbackErrorView::SerializeFailed { reason } => "failed to serialize rollback record: "@
            + reason,
        RollbackErrorView::Interrupted { reason } => reason,
        RollbackErrorView::UnexpectedReply => "unexpected reply to a rollback step"@,
    }
}

impl RollbackError {
    /// The text of the error.
    pub fn message(&self) -> (r: String)
        ensures
            r@ == rollback_error_text(self@),
    {
        match self {
            RollbackError::OutsideWorkspace { path, root } => owned("path ").concat(path.as_str())
                .concat(" is outside workspace ").concat(root.as_str()),
            RollbackError::WorkspaceRoot => owned("workspace root cannot be used as a rollback file target"),
            RollbackError::NotRelative { path } => owned("rollback record path must be relative: ")
                .concat(path.as_str()),
            RollbackError::NotAFile { path } => owned("rollback target is not a file: ")
                .concat(path.as_str()),
            RollbackError::ReadFailed { path, reason } => owned("failed to read snapshot ")
                .concat(path.as_str()).concat(": ").concat(reason.as_str()),
            RollbackError::ResolveFailed { path, reason } => owned("failed to resolve ")
                .concat(path.as_str()).concat(": ").concat(reason.as_str()),
            RollbackError::InvalidRecordId { id } => owned("invalid rollback record id: ")
                .concat(id.as_str()),
            RollbackError::NoRecordId => owned("failed to allocate rollback record id"),
            RollbackError::NotInRecord { path, record } => owned("file ").concat(path.as_str())
                .concat(" is not part of rollback record ").concat(record.as_str()),
            RollbackError::RestoreFailed { path, reason } => owned("failed to restore ")
                .concat(path.as_str()).concat(": ").concat(reason.as_str()),
            RollbackError::DeleteFailed { path, reason } => owned("failed to delete ")
                .concat(path.as_str()).concat(": ").concat(reason.as_str()),
            RollbackError::CreateDirectory { path, reason } => owned("failed to create directory ")
                .concat(path.as_str()).concat(": ").concat(reason.as_str()),
            RollbackError::RecordDirectory { path, reason } => owned("failed to create ")
                .concat(path.as_str()).concat(": ").concat(reason.as_str()),
            RollbackError::SaveFailed { id, reason } => owned("failed to write rollback record ")
                .concat(id.as_str()).concat(": ").concat(reason.as_str()),
            RollbackError::SerializeFailed { reason } => owned(
                "failed to serialize rollback record: ",
            ).concat(reason.as_str()),
            RollbackError::Interrupted { reason } => reason.clone(),
            RollbackError::UnexpectedReply => owned("unexpected reply to a rollback step"),
        }
    }
}

/// How a file changed.
#[derive(Debug, Clone, Copy, PartialEq, Eq, Structural)]
pub enum FileChangeKind {
    Created,
    Deleted,
    Modified,
    Unchanged,
}

/// What going back to a snapshot takes.
#[derive(Debug, Clone, Copy, PartialEq, Eq, Structural)]
pub enum RestoreAction {
    RestorePreviousContent,
    DeleteCreatedFile,
    NoChange,
    NothingToRestore,
}

/// Whether two optional texts are the same.
pub fn same_content(a: &Option<String>, b: &Option<String>) -> (r: bool)
    ensures
        r == (opt_view(*a) == opt_view(*b)),
{
    match (a, b) {
        (Some(x), Some(y)) => *x == *y,
        (None, None) => true,
        _ => false,
    }
}

/// How a file changed between two snapshots.
pub open spec fn kind_of_change(
    before: FileSnapshotView,
    after: FileSnapshotView,
) -> FileChangeKind {
    if !before.existed && after.existed {
        FileChangeKind::Created
    } else if before.existed && !after.existed {
        FileChangeKind::Deleted
    } else if before.existed && before.content != after.content {
        FileChangeKind::Modified
    } else {
        FileChangeKind::Unchanged
    }
}

/// How a file changed between two snapshots.
pub fn change_kind(before: &FileSnapshot, after: &FileSnapshot) -> (r: FileChangeKind)
    ensures
        r == kind_of_change(before@, after@),
{
    match (before.existed, after.existed) {
        (false, true) => FileChangeKind::Created,
        (true, false) => FileChangeKind::Deleted,
        (true, true) => {
            if same_content(&before.content, &after.content) {
                FileChangeKind::Unchanged
            } else {
                FileChangeKind::Modified
            }
        },
        (false, false) => FileChangeKind::Unchanged,
    }
}

/// The number of bytes that a snapshot holds.
pub open spec fn content_bytes(snapshot: FileSnapshotView) -> Option<usize> {
    match snapshot.content {
        Some(c) => Some(byte_len(c) as usize),
        None => None,
    }
}

/// The number of bytes that a snapshot holds.
pub fn snapshot_bytes(snapshot: &FileSnapshot) -> (r: Option<usize>)
    ensures
        r == content_bytes(snapshot@),
{
    match &snapshot.content {
        Some(c) => Some(text_len(c.as_str())),
        None => None,
    }
}

/// What it takes to go from `current` to `target`.
pub open spec fn action_to_restore(
    current: FileSnapshotView,
    target: FileSnapshotView,
) -> RestoreAction {
    if !target.existed {
        if current.existed {
            RestoreAction::DeleteCreatedFile
        } else {
            RestoreAction::NothingToRestore
        }
    } else if current.content == target.content {
        RestoreAction::NoChange
    } else {
        RestoreAction::RestorePreviousContent
    }
}

/// What it takes to go from `current` to `target`.
pub fn restore_action(current: &FileSnapshot, target: &FileSnapshot) -> (r: RestoreAction)
    ensures
        r == action_to_restore(current@, target@),
{
    match (current.existed, target.existed) {
        (true, false) => RestoreAction::DeleteCreatedFile,
        (false, false) => RestoreAction::NothingToRestore,
        (_, true) => {
            if same_content(&current.content, &target.content) {
                RestoreAction::NoChange
            } else {
                RestoreAction::RestorePreviousContent
            }
        },
    }
}

/// The snapshot of what stands at the absolute path of `relative`, or why there is none.
pub open spec fn snapshot_of(
    relative: Seq<char>,
    absolute_path: Seq<char>,
    state: FileStateView,
) -> Result<FileSnapshotView, RollbackErrorView> {
    match state {
        FileStateView::Missing => Ok(
            FileSnapshotView { path: normalized(relative), existed: false, content: None },
        ),
        FileStateView::Text { content } => Ok(
            FileSnapshotView { path: normalized(relative), existed: true, content: Some(content) },
        ),
        FileStateView::Unreadable { reason } => Err(
            RollbackErrorView::ReadFailed { path: absolute_path, reason },
        ),
        _ => Err(RollbackErrorView::NotAFile { path: absolute_path }),
    }
}

/// The value of a result that is a snapshot.
pub open spec fn snapshot_result(r: Result<FileSnapshot, RollbackError>) -> Result<
    FileSnapshotView,
    RollbackErrorView,
> {
    match r {
        Ok(s) => Ok(s@),
        Err(e) => Err(e@),
    }
}

/// Takes a snapshot of what stands at the absolute path of `relative`.
pub fn take_snapshot(relative: &str, absolute_path: &str, state: FileState) -> (r: Result<
    FileSnapshot,
    RollbackError,
>)
    ensures
        snapshot_result(r) == snapshot_of(relative@, absolute_path@, state@),
{
    match state {
        FileState::Missing => Ok(
            FileSnapshot { path: normalize_path(relative), existed: false, content: None },
        ),
        FileState::Text { content } => Ok(
            FileSnapshot { path: normalize_path(relative), existed: true, content: Some(content) },
        ),
        FileState::Unreadable { reason } => Err(
            RollbackError::ReadFailed { path: owned(absolute_path), reason },
        ),
        _ => Err(RollbackError::NotAFile { path: owned(absolute_path) }),
    }
}

/// The label of one side of a difference.
pub open spec fn side_label(snapshot: FileSnapshotView, label: Seq<char>) -> Seq<char> {
    if snapshot.existed {
        label
    } else {
        label + ", missing"@
    }
}

/// The text that a snapshot holds; nothing where there was no file.
pub open spec fn content_or_empty(snapshot: FileSnapshotView) -> Seq<char> {
    match snapshot.content {
        Some(c) => c,
        None => Seq::empty(),
    }
}

/// The first two lines of a difference.
pub open spec fn diff_header(
    path: Seq<char>,
    before: FileSnapshotView,
    after: FileSnapshotView,
    before_label: Seq<char>,
    after_label: Seq<char>,
) -> Seq<char> {
    "--- "@ + path + " ("@ + side_label(before, before_label) + ")\n+++ "@ + path + " ("@
        + side_label(after, after_label) + ")\n"@
}

/// The difference of two snapshots as text.
pub open spec fn snapshot_diff(
    path: Seq<char>,
    before: FileSnapshotView,
    after: FileSnapshotView,
    before_label: Seq<char>,
    after_label: Seq<char>,
) -> Seq<char> {
    diff_header(path, before, after, before_label, after_label) + if before.content
        == after.content {
        "(no changes)\n"@
    } else {
        diff_text(
            line_diff(lines(content_or_empty(before)), lines(content_or_empty(after)), 0, 0),
        )
    }
}

fn snapshot_label(snapshot: &FileSnapshot, label: &str) -> (r: String)
    ensures
        r@ == side_label(snapshot@, label@),
{
    if snapshot.existed {
        owned(label)
    } else {
        owned(label).concat(", missing")
    }
}

fn snapshot_lines(snapshot: &FileSnapshot) -> (r: Vec<String>)
    ensures
        crate::text::views(r@) == lines(content_or_empty(snapshot@)),
{
    match &snapshot.content {
        Some(c) => split_lines(c.as_str()),
        None => {
            let none = String::new();
            split_lines(none.as_str())
        },
    }
}

/// The difference of two snapshots as text.
pub fn render_diff(
    path: &str,
    before: &FileSnapshot,
    after: &FileSnapshot,
    before_label: &str,
    after_label: &str,
) -> (r: String)
    ensures
        r@ == snapshot_diff(path@, before@, after@, before_label@, after_label@),
{
    let left = snapshot_label(before, before_label);
    let right = snapshot_label(after, after_label);
    let header = owned("--- ").concat(path).concat(" (").concat(left.as_str()).concat(
        ")\n+++ ",
    ).concat(path).concat(" (").concat(right.as_str()).concat(")\n");
    if same_content(&before.content, &after.content) {
        return header.concat("(no changes)\n");
    }
    let before_lines = snapshot_lines(before);
    let after_lines = snapshot_lines(after);
    header.concat(render_line_diff(&before_lines, &after_lines).as_str())
}

// ---------------------------------------------------------------------------
// Laws
// ---------------------------------------------------------------------------

/// Whether a snapshot holds a text exactly where the file existed.
pub open spec fn is_whole(snapshot: FileSnapshotView) -> bool {
    snapshot.existed <==> snapshot.content is Some
}

/// Every snapshot that is taken is whole.
pub proof fn snapshots_are_whole(relative: Seq<char>, absolute_path: Seq<char>, state: FileStateView)
    requires
        snapshot_of(relative, absolute_path, state) is Ok,
    ensures
        is_whole(snapshot_of(relative, absolute_path, state)->Ok_0),
{
}

/// A file that did not change needs nothing to be restored, and one that did needs something.
pub proof fn unchanged_files_need_no_restore(
    before: FileSnapshotView,
    after: FileSnapshotView,
)
    requires
        is_whole(before),
        is_whole(after),
    ensures
        kind_of_change(before, after) is Unchanged <==> (action_to_restore(after, before)
            is NoChange || action_to_restore(after, before) is NothingToRestore),
{
}

/// What is shown of two snapshots names the file and both sides, says so where nothing
/// changed, and else gives back, line for line, the old and the new text.
pub proof fn shown_difference_reads_back(
    path: Seq<char>,
    before: FileSnapshotView,
    after: FileSnapshotView,
    before_label: Seq<char>,
    after_label: Seq<char>,
)
    ensures
        ({
            let shown = snapshot_diff(path, before, after, before_label, after_label);
            let old_label = if before.existed {
                before_label
            } else {
                before_label + ", missing"@
            };
            let new_label = if after.existed {
                after_label
            } else {
                after_label + ", missing"@
            };
            let head = "--- "@ + path + " ("@ + old_label + ")\n+++ "@ + path + " ("@ + new_label
                + ")\n"@;
            let body = shown.skip(head.len() as int);
            &&& shown == head + body
            &&& before.content == after.content ==> body == "(no changes)\n"@
            &&& before.content != after.content ==> {
                &&& read_side(body, '-') == match before.content {
                    Some(text) => lines(text),
                    None => Seq::empty(),
                }
                &&& read_side(body, '+') == match after.content {
                    Some(text) => lines(text),
                    None => Seq::empty(),
                }
            }
        }),
{
    let shown = snapshot_diff(path, before, after, before_label, after_label);
    let head = diff_header(path, before, after, before_label, after_label);
    let old_lines = lines(content_or_empty(before));
    let new_lines = lines(content_or_empty(after));
    lines_hold_no_feeds(content_or_empty(before));
    lines_hold_no_feeds(content_or_empty(after));
    diff_text_reads_back(old_lines, new_lines);
    if before.content == after.content {
        assert(shown.skip(head.len() as int) =~= "(no changes)\n"@);
    } else {
        assert(shown.skip(head.len() as int) =~= diff_text(line_diff(old_lines, new_lines, 0, 0)));
    }
    assert(shown =~= head + shown.skip(head.len() as int));
}

} // verus!
