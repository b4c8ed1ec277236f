//! Records of what a tool changed.
use vstd::prelude::*;
use crate::number::{decimal, render_u64, render_usize};
use crate::order::{is_stable_order, positions, stable_order};
use crate::rollback::snapshot::{
    change_kind, content_bytes, copy_file_snapshots, file_snapshot_views, kind_of_change,
    render_diff, snapshot_bytes, snapshot_diff, FileChangeKind, FileSnapshot, FileSnapshotView,
    RestoreAction,
};
use crate::store::is_safe_char;
use crate::text::{copy_strings, lemma_views_push, owned, to_chars, views};
use crate::tools::tool::{ToolOutput, ToolOutputView};

verus! {

/// A file that a tool changed.
#[derive(Debug, PartialEq, Eq)]
pub struct ChangedFile {
    pub path: String,
    pub kind: FileChangeKind,
    pub bytes_before: Option<usize>,
    pub bytes_after: Option<usize>,
}

/// The value of a `ChangedFile`.
pub struct ChangedFileView {
    pub path: Seq<char>,
    pub kind: FileChangeKind,
    pub bytes_before: Option<usize>,
    pub bytes_after: Option<usize>,
}

impl View for ChangedFile {
    type V = ChangedFileView;

    open spec fn view(&self) -> ChangedFileView {
        ChangedFileView {
            path: self.path@,
            kind: self.kind,
            bytes_before: self.bytes_before,
            bytes_after: self.bytes_after,
        }
    }
}

impl Clone for ChangedFile {
    fn clone(&self) -> (r: Self)
        ensures
            r@ == self@,
    {
        ChangedFile {
            path: self.path.clone(),
            kind: self.kind,
            bytes_before: self.bytes_before,
            bytes_after: self.bytes_after,
        }
    }
}

/// The values of a list of `ChangedFile`.
pub open spec fn changed_file_views(s: Seq<ChangedFile>) -> Seq<ChangedFileView> {
    Seq::new(s.len(), |i: int| s[i]@)
}

/// A copy of a list of `ChangedFile`.
pub fn copy_changed_files(v: &Vec<ChangedFile>) -> (r: Vec<ChangedFile>)
    ensures
        changed_file_views(r@) == changed_file_views(v@),
{
    let mut r: Vec<ChangedFile> = Vec::new();
    let mut i: usize = 0;
    let ghost all = changed_file_views(v@);
    while i < v.len()
        invariant
            i <= v@.len(),
            all == changed_file_views(v@),
            changed_file_views(r@) == all.take(i as int),
        decreases v.len() - i,
    {
        let x = v[i].clone();
        proof {
            assert(changed_file_views(r@.push(x)) =~= changed_file_views(r@).push(x@));
            assert(all.take(i + 1) =~= all.take(i as int).push(v@[i as int]@));
        }
        r.push(x);
        i += 1;
    }
    proof {
        assert(all.take(v@.len() as int) =~= all);
    }
    r
}

/// The difference of a file.
#[derive(Debug, PartialEq, Eq)]
pub struct FileDiff {
    pub path: String,
    pub diff: String,
}

/// The value of a `FileDiff`.
pub struct FileDiffView {
    pub path: Seq<char>,
    pub diff: Seq<char>,
}

impl View for FileDiff {
    type V = FileDiffView;

    open spec fn view(&self) -> FileDiffView {
        FileDiffView {
            path: self.path@,
            diff: self.diff@,
        }
    }
}

impl Clone for FileDiff {
    fn clone(&self) -> (r: Self)
        ensures
            r@ == self@,
    {
        FileDiff {
            path: self.path.clone(),
            diff: self.diff.clone(),
        }
    }
}

/// The values of a list of `FileDiff`.
pub open spec fn file_diff_views(s: Seq<FileDiff>) -> Seq<FileDiffView> {
    Seq::new(s.len(), |i: int| s[i]@)
}

/// A copy of a list of `FileDiff`.
pub fn copy_file_diffs(v: &Vec<FileDiff>) -> (r: Vec<FileDiff>)
    ensures
        file_diff_views(r@) == file_diff_views(v@),
{
    let mut r: Vec<FileDiff> = Vec::new();
    let mut i: usize = 0;
    let ghost all = file_diff_views(v@);
    while i < v.len()
        invariant
            i <= v@.len(),
            all == file_diff_views(v@),
            file_diff_views(r@) == all.take(i as int),
        decreases v.len() - i,
    {
        let x = v[i].clone();
        proof {
            assert(file_diff_views(r@.push(x)) =~= file_diff_views(r@).push(x@));
            assert(all.take(i + 1) =~= all.take(i as int).push(v@[i as int]@));
        }
        r.push(x);
        i += 1;
    }
    proof {
        assert(all.take(v@.len() as int) =~= all);
    }
    r
}

/// What a tool changed, with all that is needed to go back.
#[derive(Debug, PartialEq, Eq)]
pub struct RollbackRecord {
    pub id: String,
    pub session_id: String,
    pub profile: String,
    pub turn_index: usize,
    pub workspace: String,
    pub tool_name: String,
    pub changed_files: Vec<ChangedFile>,
    pub before_snapshot: Vec<FileSnapshot>,
    pub after_snapshot: Vec<FileSnapshot>,
    pub diffs: Vec<FileDiff>,
    pub created_at_ms: u64,
}

/// The value of a `RollbackRecord`.
pub struct RollbackRecordView {
    pub id: Seq<char>,
    pub session_id: Seq<char>,
    pub profile: Seq<char>,
    pub turn_index: usize,
    pub workspace: Seq<char>,
    pub tool_name: Seq<char>,
    pub changed_files: Seq<ChangedFileView>,
    pub before_snapshot: Seq<FileSnapshotView>,
    pub after_snapshot: Seq<FileSnapshotView>,
    pub diffs: Seq<FileDiffView>,
    pub created_at_ms: u64,
}

impl View for RollbackRecord {
    type V = RollbackRecordView;

    open spec fn view(&self) -> RollbackRecordView {
        RollbackRecordView {
            id: self.id@,
            session_id: self.session_id@,
            profile: self.profile@,
            turn_index: self.turn_index,
            workspace: self.workspace@,
            tool_name: self.tool_name@,
            changed_files: changed_file_views(self.changed_files@),
            before_snapshot: file_snapshot_views(self.before_snapshot@),
            after_snapshot: file_snapshot_views(self.after_snapshot@),
            diffs: file_diff_views(self.diffs@),
            created_at_ms: self.created_at_ms,
        }
    }
}

impl Clone for RollbackRecord {
    fn clone(&self) -> (r: Self)
        ensures
            r@ == self@,
    {
        RollbackRecord {
            id: self.id.clone(),
            session_id: self.session_id.clone(),
            profile: self.profile.clone(),
            turn_index: self.turn_index,
            workspace: self.workspace.clone(),
            tool_name: self.tool_name.clone(),
            changed_files: copy_changed_files(&self.changed_files),
            before_snapshot: copy_file_snapshots(&self.before_snapshot),
            after_snapshot: copy_file_snapshots(&self.after_snapshot),
            diffs: copy_file_diffs(&self.diffs),
            created_at_ms: self.created_at_ms,
        }
    }
}

/// The value of an optional `RollbackRecord`.
pub open spec fn opt_rollback_record(x: Option<RollbackRecord>) -> Option<RollbackRecordView> {
    match x {
        Some(v) => Some(v@),
        None => None,
    }
}

/// What a list of records shows of one of them.
#[derive(Debug, PartialEq, Eq)]
pub struct RollbackRecordSummary {
    pub id: String,
    pub session_id: String,
    pub turn_index: usize,
    pub tool_name: String,
    pub changed_files: Vec<String>,
    pub created_at_ms: u64,
}

/// The value of a `RollbackRecordSummary`.
pub struct RollbackRecordSummaryView {
    pub id: Seq<char>,
    pub session_id: Seq<char>,
    pub turn_index: usize,
    pub tool_name: Seq<char>,
    pub changed_files: Seq<Seq<char>>,
    pub created_at_ms: u64,
}

impl View for RollbackRecordSummary {
    type V = RollbackRecordSummaryView;

    open spec fn view(&self) -> RollbackRecordSummaryView {
        RollbackRecordSummaryView {
            id: self.id@,
            session_id: self.session_id@,
            turn_index: self.turn_index,
            tool_name: self.tool_name@,
            changed_files: views(self.changed_files@),
            created_at_ms: self.created_at_ms,
        }
    }
}

impl Clone for RollbackRecordSummary {
    fn clone(&self) -> (r: Self)
        ensures
            r@ == self@,
    {
        RollbackRecordSummary {
            id: self.id.clone(),
            session_id: self.session_id.clone(),
            turn_index: self.turn_index,
            tool_name: self.tool_name.clone(),
            changed_files: copy_strings(&self.changed_files),
            created_at_ms: self.created_at_ms,
        }
    }
}

/// The values of a list of `RollbackRecordSummary`.
pub open spec fn rollback_record_summary_views(
    s: Seq<RollbackRecordSummary>,
) -> Seq<RollbackRecordSummaryView> {
    Seq::new(s.len(), |i: int| s[i]@)
}

/// What a tool reported, and the record of what it changed.
#[derive(Debug, PartialEq, Eq)]
pub struct RecordedToolOutput {
    pub output: ToolOutput,
    pub record: Option<RollbackRecord>,
}

/// The value of a `RecordedToolOutput`.
pub struct RecordedToolOutputView {
    pub output: ToolOutputView,
    pub record: Option<RollbackRecordView>,
}

impl View for RecordedToolOutput {
    type V = RecordedToolOutputView;

    open spec fn view(&self) -> RecordedToolOutputView {
        RecordedToolOutputView {
            output: self.output@,
            record: opt_rollback_record(self.record),
        }
    }
}

/// What going back would do to one file.
#[derive(Debug, PartialEq, Eq)]
pub struct FileRollbackPreview {
    pub path: String,
    pub action: RestoreAction,
    pub diff: String,
}

/// The value of a `FileRollbackPreview`.
pub struct FileRollbackPreviewView {
    pub path: Seq<char>,
    pub action: RestoreAction,
    pub diff: Seq<char>,
}

impl View for FileRollbackPreview {
    type V = FileRollbackPreviewView;

    open spec fn view(&self) -> FileRollbackPreviewView {
        FileRollbackPreviewView {
            path: self.path@,
            action: self.action,
            diff: self.diff@,
        }
    }
}

/// The values of a list of `FileRollbackPreview`.
pub open spec fn file_rollback_preview_views(
    s: Seq<FileRollbackPreview>,
) -> Seq<FileRollbackPreviewView> {
    Seq::new(s.len(), |i: int| s[i]@)
}

/// What going back would do.
#[derive(Debug, PartialEq, Eq)]
pub struct RollbackPreview {
    pub record_id: String,
    pub files: Vec<FileRollbackPreview>,
}

/// The value of a `RollbackPreview`.
pub struct RollbackPreviewView {
    pub record_id: Seq<char>,
    pub files: Seq<FileRollbackPreviewView>,
}

impl View for RollbackPreview {
    type V = RollbackPreviewView;

    open spec fn view(&self) -> RollbackPreviewView {
        RollbackPreviewView {
            record_id: self.record_id@,
            files: file_rollback_preview_views(self.files@),
        }
    }
}

/// What going back did to one file.
#[derive(Debug, PartialEq, Eq)]
pub struct RestoredFile {
    pub path: String,
    pub action: RestoreAction,
}

/// The value of a `RestoredFile`.
pub struct RestoredFileView {
    pub path: Seq<char>,
    pub action: RestoreAction,
}

impl View for RestoredFile {
    type V = RestoredFileView;

    open spec fn view(&self) -> RestoredFileView {
        RestoredFileView {
            path: self.path@,
            action: self.action,
        }
    }
}

impl Clone for RestoredFile {
    fn clone(&self) -> (r: Self)
        ensures
            r@ == self@,
    {
        RestoredFile {
            path: self.path.clone(),
            action: self.action,
        }
    }
}

/// The values of a list of `RestoredFile`.
pub open spec fn restored_file_views(s: Seq<RestoredFile>) -> Seq<RestoredFileView> {
    Seq::new(s.len(), |i: int| s[i]@)
}

/// A copy of a list of `RestoredFile`.
pub fn copy_restored_files(v: &Vec<RestoredFile>) -> (r: Vec<RestoredFile>)
    ensures
        restored_file_views(r@) == restored_file_views(v@),
{
    let mut r: Vec<RestoredFile> = Vec::new();
    let mut i: usize = 0;
    let ghost all = restored_file_views(v@);
    while i < v.len()
        invariant
            i <= v@.len(),
            all == restored_file_views(v@),
            restored_file_views(r@) == all.take(i as int),
        decreases v.len() - i,
    {
        let x = v[i].clone();
        proof {
            assert(restored_file_views(r@.push(x)) =~= restored_file_views(r@).push(x@));
            assert(all.take(i + 1) =~= all.take(i as int).push(v@[i as int]@));
        }
        r.push(x);
        i += 1;
    }
    proof {
        assert(all.take(v@.len() as int) =~= all);
    }
    r
}

/// What going back did.
#[derive(Debug, PartialEq, Eq)]
pub struct RestoreReport {
    pub record_id: String,
    pub files: Vec<RestoredFile>,
}

/// The value of a `RestoreReport`.
pub struct RestoreReportView {
    pub record_id: Seq<char>,
    pub files: Seq<RestoredFileView>,
}

impl View for RestoreReport {
    type V = RestoreReportView;

    open spec fn view(&self) -> RestoreReportView {
        RestoreReportView {
            record_id: self.record_id@,
            files: restored_file_views(self.files@),
        }
    }
}

impl Clone for RestoreReport {
    fn clone(&self) -> (r: Self)
        ensures
            r@ == self@,
    {
        RestoreReport {
            record_id: self.record_id.clone(),
            files: copy_restored_files(&self.files),
        }
    }
}
/// The paths of a list of changed files.
pub open spec fn changed_paths(files: Seq<ChangedFileView>) -> Seq<Seq<char>> {
    Seq::new(files.len(), |i: int| files[i].path)
}

/// What a list of records shows of a record.
pub open spec fn record_summary(r: RollbackRecordView) -> RollbackRecordSummaryView {
    RollbackRecordSummaryView {
        id: r.id,
        session_id: r.session_id,
        turn_index: r.turn_index,
        tool_name: r.tool_name,
        changed_files: changed_paths(r.changed_files),
        created_at_ms: r.created_at_ms,
    }
}

impl RollbackRecord {
    /// What a list of records shows of this one.
    pub fn summary(&self) -> (r: RollbackRecordSummary)
        ensures
            r@ == record_summary(self@),
    {
        let mut paths: Vec<String> = Vec::new();
        let mut i: usize = 0;
        let ghost all = changed_paths(changed_file_views(self.changed_files@));
        while i < self.changed_files.len()
            invariant
                i <= self.changed_files@.len(),
                all == changed_paths(changed_file_views(self.changed_files@)),
                views(paths@) == all.take(i as int),
            decreases self.changed_files.len() - i,
        {
            let path = self.changed_files[i].path.clone();
            proof {
                lemma_views_push(paths@, path);
                assert(all.take(i + 1) =~= all.take(i as int).push(path@));
            }
            paths.push(path);
            i += 1;
        }
        proof {
            assert(all.take(self.changed_files@.len() as int) =~= all);
        }
        RollbackRecordSummary {
            id: self.id.clone(),
            session_id: self.session_id.clone(),
            turn_index: self.turn_index,
            tool_name: self.tool_name.clone(),
            changed_files: paths,
            created_at_ms: self.created_at_ms,
        }
    }
}

/// The entry for one file in the list of changed files.
pub open spec fn change_of(before: FileSnapshotView, after: FileSnapshotView) -> ChangedFileView {
    ChangedFileView {
        path: before.path,
        kind: kind_of_change(before, after),
        bytes_before: content_bytes(before),
        bytes_after: content_bytes(after),
    }
}

/// The files that changed between two lists of snapshots, taken in pairs.
pub open spec fn changes(
    before: Seq<FileSnapshotView>,
    after: Seq<FileSnapshotView>,
) -> Seq<ChangedFileView>
    decreases before.len(),
{
    if before.len() == 0 || after.len() == 0 {
        Seq::empty()
    } else {
        let rest = changes(before.drop_first(), after.drop_first());
        if kind_of_change(before[0], after[0]) is Unchanged {
            rest
        } else {
            seq![change_of(before[0], after[0])] + rest
        }
    }
}

/// The files that changed between two lists of snapshots, taken in pairs.
pub fn changed_files(before: &Vec<FileSnapshot>, after: &Vec<FileSnapshot>) -> (r: Vec<ChangedFile>)
    ensures
        changed_file_views(r@) == changes(file_snapshot_views(before@), file_snapshot_views(after@)),
{
    let mut r: Vec<ChangedFile> = Vec::new();
    let mut i: usize = 0;
    let ghost a = file_snapshot_views(before@);
    let ghost b = file_snapshot_views(after@);
    proof {
        assert(a.skip(0) =~= a && b.skip(0) =~= b);
        assert(changed_file_views(r@) + changes(a, b) =~= changes(a, b));
    }
    while i < before.len() && i < after.len()
        invariant
            i <= before@.len(),
            i <= after@.len(),
            a == file_snapshot_views(before@),
            b == file_snapshot_views(after@),
            changed_file_views(r@) + changes(a.skip(i as int), b.skip(i as int)) == changes(a, b),
        decreases before.len() - i,
    {
        let ghost rest = changes(a.skip(i + 1), b.skip(i + 1));
        let ghost so_far = changed_file_views(r@);
        proof {
            assert(a.skip(i as int)[0] == before@[i as int]@);
            assert(b.skip(i as int)[0] == after@[i as int]@);
            assert(a.skip(i as int).drop_first() =~= a.skip(i + 1));
            assert(b.skip(i as int).drop_first() =~= b.skip(i + 1));
        }
        let kind = change_kind(&before[i], &after[i]);
        if kind != FileChangeKind::Unchanged {
            let file = ChangedFile {
                path: before[i].path.clone(),
                kind,
                bytes_before: snapshot_bytes(&before[i]),
                bytes_after: snapshot_bytes(&after[i]),
            };
            proof {
                assert(file@ == change_of(before@[i as int]@, after@[i as int]@));
                assert(changed_file_views(r@.push(file)) =~= so_far.push(file@));
                assert(so_far + (seq![file@] + rest) =~= so_far.push(file@) + rest);
            }
            r.push(file);
        }
        i += 1;
    }
    proof {
        assert(changed_file_views(r@) + changes(a.skip(i as int), b.skip(i as int))
            =~= changed_file_views(r@));
    }
    r
}

/// The differences of two lists of snapshots, taken in pairs.
pub open spec fn all_diffs(
    before: Seq<FileSnapshotView>,
    after: Seq<FileSnapshotView>,
) -> Seq<FileDiffView> {
    let n = if before.len() <= after.len() {
        before.len()
    } else {
        after.len()
    };
    Seq::new(
        n,
        |i: int|
            FileDiffView {
                path: before[i].path,
                diff: snapshot_diff(before[i].path, before[i], after[i], "before"@, "after"@),
            },
    )
}

/// The differences of two lists of snapshots, taken in pairs.
pub fn record_diffs(before: &Vec<FileSnapshot>, after: &Vec<FileSnapshot>) -> (r: Vec<FileDiff>)
    ensures
        file_diff_views(r@) == all_diffs(file_snapshot_views(before@), file_snapshot_views(after@)),
{
    let mut r: Vec<FileDiff> = Vec::new();
    let mut i: usize = 0;
    let ghost goal = all_diffs(file_snapshot_views(before@), file_snapshot_views(after@));
    while i < before.len() && i < after.len()
        invariant
            i <= before@.len(),
            i <= after@.len(),
            goal == all_diffs(file_snapshot_views(before@), file_snapshot_views(after@)),
            file_diff_views(r@) == goal.take(i as int),
        decreases before.len() - i,
    {
        let diff = FileDiff {
            path: before[i].path.clone(),
            diff: render_diff(before[i].path.as_str(), &before[i], &after[i], "before", "after"),
        };
        proof {
            assert(diff@ == goal[i as int]);
            assert(file_diff_views(r@.push(diff)) =~= file_diff_views(r@).push(diff@));
            assert(goal.take(i + 1) =~= goal.take(i as int).push(goal[i as int]));
        }
        r.push(diff);
        i += 1;
    }
    proof {
        assert(goal.take(i as int) =~= goal);
    }
    r
}

// ---------------------------------------------------------------------------
// Record ids
// ---------------------------------------------------------------------------

/// Whether an id can name a file of the record directory and nothing else.
pub open spec fn is_safe_id(id: Seq<char>) -> bool {
    &&& id.len() > 0
    &&& id != crate::path::dot()
    &&& id != crate::path::dot_dot()
    &&& forall|i: int| 0 <= i < id.len() ==> is_safe_char(#[trigger] id[i])
}

/// Whether an id can name a file of the record directory and nothing else.
pub fn is_safe_record_id(id: &str) -> (r: bool)
    ensures
        r == is_safe_id(id@),
{
    let v = to_chars(id);
    if v.len() == 0 {
        return false;
    }
    if v.len() == 1 && v[0] == '.' {
        proof {
            assert(v@ =~= crate::path::dot());
        }
        return false;
    }
    if v.len() == 2 && v[0] == '.' && v[1] == '.' {
        proof {
            assert(v@ =~= crate::path::dot_dot());
        }
        return false;
    }
    let mut i: usize = 0;
    while i < v.len()
        invariant
            i <= v@.len(),
            v@ == id@,
            forall|k: int| 0 <= k < i ==> is_safe_char(#[trigger] v@[k]),
        decreases v.len() - i,
    {
        let c = v[i];
        if !(('a' <= c && c <= 'z') || ('A' <= c && c <= 'Z') || ('0' <= c && c <= '9') || c == '-'
            || c == '_' || c == '.') {
            proof {
                assert(!is_safe_char(id@[i as int]));
            }
            return false;
        }
        i += 1;
    }
    true
}

/// The id of a record made in the turn `turn` at `now`, where `suffix` others of that
/// moment are taken.
pub open spec fn record_id(turn: usize, now: u64, suffix: usize) -> Seq<char> {
    let base = "r-"@ + decimal(turn as nat) + "-"@ + decimal(now as nat);
    if suffix == 0 {
        base
    } else {
        base + "-"@ + decimal(suffix as nat)
    }
}

/// The id of a record made in the turn `turn` at `now`.
pub fn make_record_id(turn: usize, now: u64, suffix: usize) -> (r: String)
    ensures
        r@ == record_id(turn, now, suffix),
{
    let base = owned("r-").concat(render_usize(turn).as_str()).concat("-").concat(
        render_u64(now).as_str(),
    );
    if suffix == 0 {
        base
    } else {
        base.concat("-").concat(render_usize(suffix).as_str())
    }
}

/// A number in decimal holds only characters that are safe in a file name.
pub proof fn lemma_decimal_safe(n: nat)
    ensures
        forall|i: int| 0 <= i < decimal(n).len() ==> is_safe_char(#[trigger] decimal(n)[i]),
        decimal(n).len() > 0,
    decreases n,
{
    if n >= 10 {
        lemma_decimal_safe(n / 10);
    }
}

/// Every id that is made can name a record.
pub proof fn record_ids_are_safe(turn: usize, now: u64, suffix: usize)
    ensures
        is_safe_id(record_id(turn, now, suffix)),
{
    reveal_strlit("r-");
    reveal_strlit("-");
    lemma_decimal_safe(turn as nat);
    lemma_decimal_safe(now as nat);
    lemma_decimal_safe(suffix as nat);
    let id = record_id(turn, now, suffix);
    assert(id[0] == 'r');
    assert forall|i: int| 0 <= i < id.len() implies is_safe_char(#[trigger] id[i]) by {}
}

// ---------------------------------------------------------------------------
// Listing
// ---------------------------------------------------------------------------

/// When each record was made.
pub open spec fn record_times(records: Seq<RollbackRecordSummaryView>) -> Seq<u64> {
    Seq::new(records.len(), |i: int| records[i].created_at_ms)
}

/// Whether `r` lists the records `all`, the oldest first, those of the same time in their
/// order in `all`.
pub open spec fn is_oldest_first(
    all: Seq<RollbackRecordSummaryView>,
    r: Seq<RollbackRecordSummaryView>,
) -> bool {
    exists|order: Seq<int>|
        is_stable_order(record_times(all), false, order) && r == Seq::new(
            order.len(),
            |i: int| all[order[i]],
        )
}

/// The records, the oldest first.
pub fn sort_records(records: &Vec<RollbackRecordSummary>) -> (r: Vec<RollbackRecordSummary>)
    ensures
        is_oldest_first(
            rollback_record_summary_views(records@),
            rollback_record_summary_views(r@),
        ),
{
    let ghost all = rollback_record_summary_views(records@);
    let mut keys: Vec<u64> = Vec::new();
    let mut i: usize = 0;
    while i < records.len()
        invariant
            i <= records@.len(),
            all == rollback_record_summary_views(records@),
            keys@ == record_times(all).take(i as int),
        decreases records.len() - i,
    {
        proof {
            let t = record_times(all);
            assert(t.take(i + 1) =~= t.take(i as int).push(records@[i as int].created_at_ms));
        }
        keys.push(records[i].created_at_ms);
        i += 1;
    }
    proof {
        assert(record_times(all).take(records@.len() as int) =~= record_times(all));
    }
    let order = stable_order(&keys, false);
    let mut r: Vec<RollbackRecordSummary> = Vec::new();
    let ghost goal = Seq::new(order@.len(), |k: int| all[positions(order@)[k]]);
    let mut j: usize = 0;
    while j < order.len()
        invariant
            j <= order@.len(),
            order@.len() == records@.len(),
            forall|k: int| 0 <= k < order@.len() ==> #[trigger] order@[k] < records@.len(),
            all == rollback_record_summary_views(records@),
            goal == Seq::new(order@.len(), |k: int| all[positions(order@)[k]]),
            rollback_record_summary_views(r@) == goal.take(j as int),
        decreases order.len() - j,
    {
        let at: usize = order[j];
        let next = records[at].clone();
        proof {
            assert(goal[j as int] == next@);
            assert(rollback_record_summary_views(r@.push(next)) =~= rollback_record_summary_views(
                r@,
            ).push(next@));
            assert(goal.take(j + 1) =~= goal.take(j as int).push(goal[j as int]));
        }
        r.push(next);
        j += 1;
    }
    proof {
        assert(goal.take(order@.len() as int) =~= goal);
        assert(goal =~= Seq::new(positions(order@).len(), |k: int| all[positions(order@)[k]]));
    }
    r
}

} // verus!
