//! What holds of every record of changes.
use vstd::prelude::*;
use crate::measure::byte_len;
use crate::number::decimal;
use crate::path::{absolute, joined_path, normalized, path_begins};
use crate::rollback::manager::{
    absolute_of, candidate_of, mutated_path, record_of_run, RollbackManagerView,
};
use crate::rollback::record::{
    all_diffs, changes, is_oldest_first, record_id, record_summary, record_times,
    ChangedFileView, RollbackRecordSummaryView, RollbackRecordView,
};
use crate::rollback::snapshot::{
    action_to_restore, kind_of_change, rollback_error_text, snapshot_diff, snapshot_of,
    FileSnapshotView, RollbackErrorView,
};
use crate::text_laws::decimals_are_read_back;
use crate::tools::tool::{FileStateView, ToolRequestView};

verus! {

/// A file that appeared was created, one that went away was deleted, one whose content is
/// another was modified, and every other is unchanged.
pub proof fn changes_are_of_one_kind(before: FileSnapshotView, after: FileSnapshotView)
    ensures
        kind_of_change(before, after) is Created <==> !before.existed && after.existed,
        kind_of_change(before, after) is Deleted <==> before.existed && !after.existed,
        kind_of_change(before, after) is Modified <==> before.existed && after.existed
            && before.content != after.content,
        kind_of_change(before, after) is Unchanged <==> before.existed == after.existed && (
        before.existed ==> before.content == after.content),
{
}

/// What is done to go back: a file that was not there is deleted, one with another content
/// is written, and nothing is done where all is as it was.
pub proof fn restoring_goes_back(current: FileSnapshotView, target: FileSnapshotView)
    ensures
        action_to_restore(current, target) is DeleteCreatedFile <==> current.existed
            && !target.existed,
        action_to_restore(current, target) is NothingToRestore <==> !current.existed
            && !target.existed,
        action_to_restore(current, target) is RestorePreviousContent <==> target.existed
            && current.content != target.content,
        action_to_restore(current, target) is NoChange <==> target.existed && current.content
            == target.content,
{
}

/// A snapshot holds what stands at its path: the whole text of a file, or that there is
/// none. Anything else is an error.
pub proof fn snapshots_hold_what_is_there(
    relative: Seq<char>,
    place: Seq<char>,
    content: Seq<char>,
    reason: Seq<char>,
)
    ensures
        snapshot_of(relative, place, FileStateView::Text { content }) == Ok::<
            FileSnapshotView,
            RollbackErrorView,
        >(
            FileSnapshotView { path: normalized(relative), existed: true, content: Some(content) },
        ),
        snapshot_of(relative, place, FileStateView::Missing) == Ok::<
            FileSnapshotView,
            RollbackErrorView,
        >(FileSnapshotView { path: normalized(relative), existed: false, content: None }),
        snapshot_of(relative, place, FileStateView::Unreadable { reason }) == Err::<
            FileSnapshotView,
            RollbackErrorView,
        >(RollbackErrorView::ReadFailed { path: place, reason }),
        snapshot_of(relative, place, FileStateView::Directory) == Err::<
            FileSnapshotView,
            RollbackErrorView,
        >(RollbackErrorView::NotAFile { path: place }),
        snapshot_of(relative, place, FileStateView::Other) == Err::<
            FileSnapshotView,
            RollbackErrorView,
        >(RollbackErrorView::NotAFile { path: place }),
{
}

proof fn lemma_changes_push(
    before: Seq<FileSnapshotView>,
    after: Seq<FileSnapshotView>,
    a: FileSnapshotView,
    b: FileSnapshotView,
)
    requires
        before.len() == after.len(),
    ensures
        changes(before.push(a), after.push(b)) == changes(before, after) + changes(
            seq![a],
            seq![b],
        ),
    decreases before.len(),
{
    let x = before.push(a);
    let y = after.push(b);
    if before.len() == 0 {
        assert(x =~= seq![a] && y =~= seq![b]);
        assert(changes(before, after) + changes(seq![a], seq![b]) =~= changes(seq![a], seq![b]));
    } else {
        assert(x.drop_first() =~= before.drop_first().push(a));
        assert(y.drop_first() =~= after.drop_first().push(b));
        lemma_changes_push(before.drop_first(), after.drop_first(), a, b);
        assert(changes(x, y) =~= changes(before, after) + changes(seq![a], seq![b]));
    }
}

/// Each file that changed is listed, in the order of the snapshots, with what happened to it
/// and both its lengths; a file that did not change is not.
pub proof fn changed_files_are_listed(
    before: Seq<FileSnapshotView>,
    after: Seq<FileSnapshotView>,
    a: FileSnapshotView,
    b: FileSnapshotView,
)
    requires
        before.len() == after.len(),
    ensures
        changes(Seq::empty(), Seq::empty()).len() == 0,
        kind_of_change(a, b) is Unchanged ==> changes(before.push(a), after.push(b)) == changes(
            before,
            after,
        ),
        !(kind_of_change(a, b) is Unchanged) ==> changes(before.push(a), after.push(b)) == changes(
            before,
            after,
        ).push(
            ChangedFileView {
                path: a.path,
                kind: kind_of_change(a, b),
                bytes_before: match a.content {
                    Some(text) => Some(byte_len(text) as usize),
                    None => None,
                },
                bytes_after: match b.content {
                    Some(text) => Some(byte_len(text) as usize),
                    None => None,
                },
            },
        ),
{
    lemma_changes_push(before, after, a, b);
    let all = changes(before, after);
    let last = changes(seq![a], seq![b]);
    assert(changes(seq![a].drop_first(), seq![b].drop_first()) =~= Seq::empty());
    if kind_of_change(a, b) is Unchanged {
        assert(all + last =~= all);
    } else {
        assert(all + last =~= all.push(last[0]));
    }
}

/// The difference of each file is shown, changed or not, under the labels `before` and
/// `after`.
pub proof fn every_file_has_its_difference(
    before: Seq<FileSnapshotView>,
    after: Seq<FileSnapshotView>,
    i: int,
)
    requires
        before.len() == after.len(),
        0 <= i < before.len(),
    ensures
        all_diffs(before, after).len() == before.len(),
        all_diffs(before, after)[i].path == before[i].path,
        all_diffs(before, after)[i].diff == snapshot_diff(
            before[i].path,
            before[i],
            after[i],
            "before"@,
            "after"@,
        ),
{
}

/// A summary tells of its record whose it is, when it was made and by what, and which files
/// it changed, in their order.
pub proof fn summaries_tell_of_their_record(r: RollbackRecordView, i: int)
    requires
        0 <= i < r.changed_files.len(),
    ensures
        record_summary(r).id == r.id,
        record_summary(r).session_id == r.session_id,
        record_summary(r).turn_index == r.turn_index,
        record_summary(r).tool_name == r.tool_name,
        record_summary(r).created_at_ms == r.created_at_ms,
        record_summary(r).changed_files.len() == r.changed_files.len(),
        record_summary(r).changed_files[i] == r.changed_files[i].path,
{
}

/// Where two texts begin with digits, a hyphen and more, they have the same digits.
proof fn lemma_same_digits(a: nat, x: Seq<char>, b: nat, y: Seq<char>)
    requires
        decimal(a) + x == decimal(b) + y,
        x.len() == 0 || x[0] == '-',
        y.len() == 0 || y[0] == '-',
    ensures
        a == b,
        x == y,
{
    let d = decimal(a);
    let e = decimal(b);
    decimals_are_read_back(a);
    decimals_are_read_back(b);
    let s = d + x;
    if d.len() < e.len() {
        assert(s[d.len() as int] == e[d.len() as int]) by {
            assert((e + y)[d.len() as int] == e[d.len() as int]);
        }
        assert(x.len() > 0) by {
            assert(s.len() == e.len() + y.len());
        }
        assert(s[d.len() as int] == x[0]);
    }
    if e.len() < d.len() {
        assert((e + y)[e.len() as int] == d[e.len() as int]);
        assert(y.len() > 0) by {
            assert(s.len() == e.len() + y.len());
        }
        assert((e + y)[e.len() as int] == y[0]);
    }
    assert(s.take(d.len() as int) =~= d);
    assert((e + y).take(e.len() as int) =~= e);
    assert(s.skip(d.len() as int) =~= x);
    assert((e + y).skip(e.len() as int) =~= y);
}

/// What stands behind the time in the id of a record.
spec fn suffix_text(suffix: usize) -> Seq<char> {
    if suffix == 0 {
        Seq::empty()
    } else {
        "-"@ + decimal(suffix as nat)
    }
}

proof fn lemma_id_parts(turn: usize, now: u64, suffix: usize)
    ensures
        record_id(turn, now, suffix) == "r-"@ + (decimal(turn as nat) + ("-"@ + (decimal(
            now as nat,
        ) + suffix_text(suffix)))),
{
    assert(record_id(turn, now, suffix) =~= "r-"@ + (decimal(turn as nat) + ("-"@ + (decimal(
        now as nat,
    ) + suffix_text(suffix)))));
}

/// Records of different turns, times or suffixes have different ids.
pub proof fn records_have_their_own_ids(
    turn_a: usize,
    now_a: u64,
    suffix_a: usize,
    turn_b: usize,
    now_b: u64,
    suffix_b: usize,
)
    requires
        record_id(turn_a, now_a, suffix_a) == record_id(turn_b, now_b, suffix_b),
    ensures
        turn_a == turn_b,
        now_a == now_b,
        suffix_a == suffix_b,
{
    reveal_strlit("-");
    lemma_id_parts(turn_a, now_a, suffix_a);
    lemma_id_parts(turn_b, now_b, suffix_b);
    let after_a = decimal(now_a as nat) + suffix_text(suffix_a);
    let after_b = decimal(now_b as nat) + suffix_text(suffix_b);
    let whole_a = decimal(turn_a as nat) + ("-"@ + after_a);
    let whole_b = decimal(turn_b as nat) + ("-"@ + after_b);
    let n = "r-"@.len() as int;
    assert(("r-"@ + whole_a).skip(n) =~= whole_a);
    assert(("r-"@ + whole_b).skip(n) =~= whole_b);
    lemma_same_digits(turn_a as nat, "-"@ + after_a, turn_b as nat, "-"@ + after_b);
    assert(("-"@ + after_a).skip(1) =~= after_a);
    assert(("-"@ + after_b).skip(1) =~= after_b);
    lemma_same_digits(now_a as nat, suffix_text(suffix_a), now_b as nat, suffix_text(suffix_b));
    if suffix_a != 0 && suffix_b != 0 {
        assert(suffix_text(suffix_a).skip(1) =~= decimal(suffix_a as nat));
        assert(suffix_text(suffix_b).skip(1) =~= decimal(suffix_b as nat));
        decimals_are_read_back(suffix_a as nat);
        decimals_are_read_back(suffix_b as nat);
    }
}

/// The id of a record tells its turn and its time, and only where that is taken a number.
pub proof fn record_ids_tell_turn_and_time(turn: usize, now: u64, suffix: usize)
    ensures
        record_id(turn, now, 0) == "r-"@ + (decimal(turn as nat) + ("-"@ + decimal(now as nat))),
        suffix > 0 ==> record_id(turn, now, suffix) == record_id(turn, now, 0) + ("-"@ + decimal(
            suffix as nat,
        )),
{
    assert(record_id(turn, now, 0) =~= "r-"@ + (decimal(turn as nat) + ("-"@ + decimal(
        now as nat,
    ))));
    if suffix > 0 {
        assert(record_id(turn, now, suffix) =~= record_id(turn, now, 0) + ("-"@ + decimal(
            suffix as nat,
        )));
    }
}

/// Listed records are all there, and none is older than one listed before it.
pub proof fn listed_records_are_in_order(
    all: Seq<RollbackRecordSummaryView>,
    r: Seq<RollbackRecordSummaryView>,
    i: int,
    j: int,
)
    requires
        is_oldest_first(all, r),
        0 <= i < j < r.len(),
    ensures
        r.len() == all.len(),
        r[i].created_at_ms <= r[j].created_at_ms,
        all.contains(r[i]),
        forall|k: int| 0 <= k < all.len() ==> r.contains(#[trigger] all[k]),
{
    let order = choose|order: Seq<int>|
        crate::order::is_stable_order(record_times(all), false, order) && r == Seq::new(
            order.len(),
            |i: int| all[order[i]],
        );
    assert(crate::order::comes_before(record_times(all), false, order[i], order[j]));
    assert(r[i] == all[order[i]]);
    assert forall|k: int| 0 <= k < all.len() implies r.contains(#[trigger] all[k]) by {
        assert(order.contains(k));
        let at = choose|at: int| 0 <= at < order.len() && order[at] == k;
        assert(r[at] == all[k]);
    }
}

/// A record tells whose it is, where and when it was made and by what tool, and holds the
/// files before and after, and how they differ.
pub proof fn records_tell_of_their_run(
    m: RollbackManagerView,
    request: ToolRequestView,
    before: Seq<FileSnapshotView>,
    after: Seq<FileSnapshotView>,
    now: u64,
    suffix: usize,
)
    ensures
        ({
            let record = record_of_run(m, request, before, after, now, suffix);
            &&& record.id == record_id(m.context.turn_index, now, suffix)
            &&& record.session_id == m.context.session_id
            &&& record.profile == m.context.profile
            &&& record.turn_index == m.context.turn_index
            &&& record.workspace == m.workspace
            &&& record.created_at_ms == now
            &&& record.before_snapshot == before
            &&& record.after_snapshot == after
            &&& record.changed_files == changes(before, after)
            &&& record.diffs == all_diffs(before, after)
            &&& request is Read ==> record.tool_name == "read"@
            &&& request is Write ==> record.tool_name == "write"@
            &&& request is Edit ==> record.tool_name == "edit"@
            &&& request is Grep ==> record.tool_name == "grep"@
            &&& request is Shell ==> record.tool_name == "shell"@
        }),
{
}

/// A path that a user gives is taken from the workspace, and has to lie in it; the path of a
/// record has to be relative too.
pub proof fn paths_are_taken_from_the_workspace(workspace: Seq<char>, path: Seq<char>)
    ensures
        ({
            let place = normalized(joined_path(workspace, path));
            let outside = RollbackErrorView::OutsideWorkspace { path: place, root: workspace };
            &&& path_begins(place, workspace) ==> candidate_of(workspace, path) == Ok::<
                Seq<char>,
                RollbackErrorView,
            >(place)
            &&& !path_begins(place, workspace) ==> candidate_of(workspace, path) == Err::<
                Seq<char>,
                RollbackErrorView,
            >(outside)
            &&& absolute(path) ==> absolute_of(workspace, path) == Err::<
                Seq<char>,
                RollbackErrorView,
            >(RollbackErrorView::NotRelative { path })
            &&& !absolute(path) ==> absolute_of(workspace, path) == candidate_of(workspace, path)
        }),
{
}

/// Only a write and an edit change a file: the one that they name.
pub proof fn writes_and_edits_change_their_file(request: ToolRequestView)
    ensures
        mutated_path(request) == match request {
            ToolRequestView::Write { path, content, overwrite } => Some(path),
            ToolRequestView::Edit { path, old, new } => Some(path),
            ToolRequestView::Read { path, max_bytes } => None,
            ToolRequestView::Grep { pattern, path, max_matches } => None,
            ToolRequestView::Shell { command, timeout_ms, max_output_bytes } => None,
        },
{
}

/// An error says what failed and where, and gives the reason of the system where there is one.
pub proof fn errors_say_what_failed(e: RollbackErrorView)
    ensures
        ({
            let text = rollback_error_text(e);
            match e {
                RollbackErrorView::OutsideWorkspace { path, root } => text == "path "@ + (path
                    + " is outside workspace "@ + root),
                RollbackErrorView::WorkspaceRoot => text
                    == "workspace root cannot be used as a rollback file target"@,
                RollbackErrorView::NotRelative { path } => text
                    == "rollback record path must be relative: "@ + path,
                RollbackErrorView::NotAFile { path } => text == "rollback target is not a file: "@
                    + path,
                RollbackErrorView::ReadFailed { path, reason } => text == "failed to read snapshot "@
                    + (path + ": "@ + reason),
                RollbackErrorView::ResolveFailed { path, reason } => text == "failed to resolve "@ + (
                path + ": "@ + reason),
                RollbackErrorView::InvalidRecordId { id } => text == "invalid rollback record id: "@
                    + id,
                RollbackErrorView::NoRecordId => text == "failed to allocate rollback record id"@,
                RollbackErrorView::NotInRecord { path, record } => text == "file "@ + (path
                    + " is not part of rollback record "@ + record),
                RollbackErrorView::RestoreFailed { path, reason } => text == "failed to restore "@ + (
                path + ": "@ + reason),
                RollbackErrorView::DeleteFailed { path, reason } => text == "failed to delete "@ + (
                path + ": "@ + reason),
                RollbackErrorView::CreateDirectory { path, reason } => text
                    == "failed to create directory "@ + (path + ": "@ + reason),
                RollbackErrorView::RecordDirectory { path, reason } => text == "failed to create "@
                    + (path + ": "@ + reason),
                RollbackErrorView::SaveFailed { id, reason } => text
                    == "failed to write rollback record "@ + (id + ": "@ + reason),
                RollbackErrorView::SerializeFailed { reason } => text
                    == "failed to serialize rollback record: "@ + reason,
                RollbackErrorView::Interrupted { reason } => text == reason,
                RollbackErrorView::UnexpectedReply => true,
            }
        }),
{
    assert forall|a: Seq<char>, b: Seq<char>, c: Seq<char>, d: Seq<char>|
        #![trigger (a + b) + c + d]
        (a + b) + c + d == a + (b + c + d) by {
        assert((a + b) + c + d =~= a + (b + c + d));
    }
}

} // verus!
