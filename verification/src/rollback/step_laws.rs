//! What holds of every step of a recorded run, of a preview, and of going back.
use vstd::prelude::*;
use crate::path::{components, directory_of, is_plain_name};
use crate::path_laws::joined_name_is_below;
use crate::context::AgentContextView;
use crate::rollback::manager::{
    absolute_of, manager_for, next_missing, paths_of_run, record_file, relative_of, run_reply,
    has_snapshot, RollbackManagerView, RollbackRunView, RunPhaseView, RunReplyView, RunStepView,
};
use crate::rollback::record::{
    is_safe_id, record_id, FileRollbackPreviewView, RollbackPreviewView, RollbackRecordView,
};
use crate::rollback::restore::{
    find_snapshot, preview_reply, restore_reply, restore_start, PreviewRunView, PreviewStepView,
    RestorePhaseView, RestoreReplyView, RestoreRunView, RestoreStepView,
};
use crate::rollback::snapshot::{
    action_to_restore, snapshot_diff, snapshot_of, FileSnapshotView, RollbackErrorView,
};
use crate::store::safe_segment;
use crate::tools::tool::{FileStateView, ToolOutputView};

verus! {

/// The snapshot of a path is the first of that path.
pub proof fn snapshots_are_found_by_path(snapshots: Seq<FileSnapshotView>, i: int)
    requires
        0 <= i < snapshots.len(),
        forall|j: int| 0 <= j < i ==> (#[trigger] snapshots[j]).path != snapshots[i].path,
    ensures
        find_snapshot(snapshots, snapshots[i].path) == Some(snapshots[i]),
    decreases i,
{
    if i > 0 {
        let rest = snapshots.drop_first();
        assert(snapshots[0].path != snapshots[i].path);
        assert forall|j: int| 0 <= j < i - 1 implies (#[trigger] rest[j]).path != rest[i
            - 1].path by {
            assert(rest[j] == snapshots[j + 1]);
        }
        snapshots_are_found_by_path(rest, i - 1);
    }
}

/// A path without a snapshot is not found.
pub proof fn other_paths_have_no_snapshot(snapshots: Seq<FileSnapshotView>, path: Seq<char>)
    requires
        forall|j: int| 0 <= j < snapshots.len() ==> (#[trigger] snapshots[j]).path != path,
    ensures
        find_snapshot(snapshots, path) is None,
    decreases snapshots.len(),
{
    if snapshots.len() > 0 {
        let rest = snapshots.drop_first();
        assert(snapshots[0].path != path);
        assert forall|j: int| 0 <= j < rest.len() implies (#[trigger] rest[j]).path != path by {
            assert(rest[j] == snapshots[j + 1]);
        }
        other_paths_have_no_snapshot(rest, path);
    }
}

/// A preview tells of each file what going back would do with it, and how it would differ;
/// then it looks at the next file, and behind the last it is done.
pub proof fn previews_tell_of_each_file(
    workspace: Seq<char>,
    run: PreviewRunView,
    state: FileStateView,
)
    requires
        run.files.len() < run.snapshots.len(),
        run.waiting is Some,
    ensures
        ({
            let k = run.files.len() as int;
            let target = run.snapshots[k];
            let m = preview_reply(workspace, run, state);
            match snapshot_of(target.path, run.waiting->0, state) {
                Err(error) => m.step == (PreviewStepView::Fail { error }) && m.run.files
                    == run.files,
                Ok(current) => {
                    let all = run.files.push(
                        FileRollbackPreviewView {
                            path: target.path,
                            action: action_to_restore(current, target),
                            diff: snapshot_diff(
                                target.path,
                                current,
                                target,
                                "current"@,
                                "rollback"@,
                            ),
                        },
                    );
                    &&& m.run.files == all
                    &&& k + 1 == run.snapshots.len() ==> m.step == (PreviewStepView::Done {
                        preview: RollbackPreviewView { record_id: run.record_id, files: all },
                    })
                    &&& k + 1 < run.snapshots.len() ==> match absolute_of(
                        workspace,
                        run.snapshots[k + 1].path,
                    ) {
                        Ok(path) => m.step == (PreviewStepView::Inspect { path }),
                        Err(error) => m.step == (PreviewStepView::Fail { error }),
                    }
                },
            }
        }),
{
}

/// Going back looks at the first file, and is done at once where there is none.
pub proof fn going_back_starts_with_the_first(
    workspace: Seq<char>,
    id: Seq<char>,
    snapshots: Seq<FileSnapshotView>,
)
    ensures
        snapshots.len() == 0 ==> restore_start(workspace, id, snapshots).step is Done,
        snapshots.len() > 0 ==> match absolute_of(workspace, snapshots[0].path) {
            Ok(path) => restore_start(workspace, id, snapshots).step == (RestoreStepView::Inspect {
                path,
            }),
            Err(error) => restore_start(workspace, id, snapshots).step == (RestoreStepView::Fail {
                error,
            }),
        },
{
}

/// A file that was there is written with its old content, one that was not is deleted; where
/// that fails, going back ends with what failed and why.
pub proof fn going_back_writes_or_deletes(
    workspace: Seq<char>,
    run: RestoreRunView,
    path: Seq<char>,
    state: FileStateView,
    reason: Seq<char>,
)
    requires
        run.files.len() < run.snapshots.len(),
    ensures
        ({
            let target = run.snapshots[run.files.len() as int];
            let looking = RestoreRunView { phase: RestorePhaseView::Look { path }, ..run };
            let writing = RestoreRunView { phase: RestorePhaseView::Write { path }, ..run };
            let deleting = RestoreRunView { phase: RestorePhaseView::Delete { path }, ..run };
            let seen = restore_reply(workspace, looking, RestoreReplyView::Inspected { state }).step;
            let lost = RestoreReplyView::Failed { reason };
            &&& snapshot_of(target.path, path, state) is Err ==> seen == (RestoreStepView::Fail {
                error: snapshot_of(target.path, path, state)->Err_0,
            })
            &&& snapshot_of(target.path, path, state) is Ok ==> {
                let current = snapshot_of(target.path, path, state)->Ok_0;
                &&& target.existed && current.content != target.content ==> seen == (
                RestoreStepView::WriteFile {
                    path,
                    content: match target.content {
                        Some(text) => text,
                        None => Seq::empty(),
                    },
                })
                &&& !target.existed && current.existed ==> seen == (RestoreStepView::DeleteFile {
                    path,
                })
            }
            &&& restore_reply(workspace, writing, lost).step == (RestoreStepView::Fail {
                error: RollbackErrorView::RestoreFailed { path, reason },
            })
            &&& restore_reply(
                workspace,
                writing,
                RestoreReplyView::ParentFailed { reason },
            ).step == (RestoreStepView::Fail {
                error: RollbackErrorView::CreateDirectory { path: directory_of(path), reason },
            })
            &&& restore_reply(workspace, deleting, lost).step == (RestoreStepView::Fail {
                error: RollbackErrorView::DeleteFailed { path, reason },
            })
        }),
{
}

/// A record gets the first id that is free: where one is taken, the next is tried, up to a
/// thousand, and nothing else of the record changes.
pub proof fn records_get_the_first_free_id(
    m: RollbackManagerView,
    run: RollbackRunView,
    record: RollbackRecordView,
    output: ToolOutputView,
    suffix: usize,
    file: Seq<char>,
    now: u64,
)
    requires
        run.phase == (RunPhaseView::Allocate { record, output, suffix, file }),
    ensures
        run_reply(m, run, RunReplyView::Free, now).step == (RunStepView::SaveRecord {
            file,
            record,
        }),
        suffix + 1 >= 1000 ==> run_reply(m, run, RunReplyView::Taken, now).step == (
        RunStepView::Fail { error: RollbackErrorView::NoRecordId }),
        suffix + 1 < 1000 ==> {
            let id = record_id(record.turn_index, record.created_at_ms, (suffix + 1) as usize);
            let next = run_reply(m, run, RunReplyView::Taken, now);
            match record_file(m.record_dir, id) {
                Ok(other) => next.step == (RunStepView::CheckRecord {
                    directory: m.record_dir,
                    file: other,
                }) && next.phase == (RunPhaseView::Allocate {
                    record: RollbackRecordView { id, ..record },
                    output,
                    suffix: (suffix + 1) as usize,
                    file: other,
                }),
                Err(error) => next.step == (RunStepView::Fail { error }),
            }
        },
{
}

/// A run is over once its record is saved, and gives the record and what the tool reported;
/// where saving fails, the run fails.
pub proof fn saved_records_end_the_run(
    m: RollbackManagerView,
    run: RollbackRunView,
    record: RollbackRecordView,
    output: ToolOutputView,
    reason: Seq<char>,
    now: u64,
)
    requires
        run.phase == (RunPhaseView::Save { record, output }),
    ensures
        ({
            let end = run_reply(m, run, RunReplyView::Saved, now).step;
            &&& end is Done
            &&& end->recorded.output == output
            &&& end->recorded.record == Some(record)
        }),
        run_reply(m, run, RunReplyView::Failed { reason }, now).step == (RunStepView::Fail {
            error: RollbackErrorView::SaveFailed { id: record.id, reason },
        }),
        run_reply(m, run, RunReplyView::Unserializable { reason }, now).step == (
        RunStepView::Fail { error: RollbackErrorView::SerializeFailed { reason } }),
{
}

/// The file to be changed is the one that its path really leads to, or the path itself where
/// nothing stands there yet; it is looked at before the tool runs.
pub proof fn files_are_looked_at_first(
    m: RollbackManagerView,
    run: RollbackRunView,
    candidate: Seq<char>,
    place: Seq<char>,
    reason: Seq<char>,
    now: u64,
)
    requires
        run.phase == (RunPhaseView::Target { candidate }),
    ensures
        ({
            let found = run_reply(m, run, RunReplyView::Resolved { path: place }, now).step;
            match relative_of(m.workspace, place) {
                Ok(relative) => match absolute_of(m.workspace, relative) {
                    Ok(path) => found == (RunStepView::Inspect { path }),
                    Err(error) => found == (RunStepView::Fail { error }),
                },
                Err(error) => found == (RunStepView::Fail { error }),
            }
        }),
        run_reply(m, run, RunReplyView::Missing, now) == run_reply(
            m,
            run,
            RunReplyView::Resolved { path: candidate },
            now,
        ),
        run_reply(m, run, RunReplyView::Failed { reason }, now).step == (RunStepView::Fail {
            error: RollbackErrorView::ResolveFailed { path: candidate, reason },
        }),
{
}

/// A run changes the file that it was asked to change, and the one that its tool reports,
/// where that is another.
pub proof fn reported_files_are_recorded_too(before: FileSnapshotView, reported: Seq<char>)
    ensures
        reported == before.path ==> paths_of_run(before, reported) == seq![before.path],
        reported != before.path ==> paths_of_run(before, reported) == seq![before.path, reported],
{
}

/// The next path to be looked at is the first without a snapshot.
pub proof fn the_next_missing_is_the_first(
    snapshots: Seq<FileSnapshotView>,
    paths: Seq<Seq<char>>,
    k: int,
)
    requires
        0 <= k <= paths.len(),
    ensures
        ({
            let next = next_missing(snapshots, paths, k);
            &&& k <= next <= paths.len()
            &&& next < paths.len() ==> !has_snapshot(snapshots, paths[next])
            &&& forall|j: int| k <= j < next ==> has_snapshot(snapshots, #[trigger] paths[j])
        }),
    decreases paths.len() - k,
{
    if k < paths.len() && has_snapshot(snapshots, paths[k]) {
        the_next_missing_is_the_first(snapshots, paths, k + 1);
    }
}

/// An id is safe that holds letters, digits, hyphens, underscores and dots alone, and is not
/// the name of a directory itself; a record of another id has no file.
pub proof fn only_safe_ids_have_files(record_dir: Seq<char>, id: Seq<char>)
    ensures
        is_safe_id(id) <==> {
            &&& id.len() > 0
            &&& id != seq!['.'] && id != seq!['.', '.']
            &&& forall|i: int|
                0 <= i < id.len() ==> {
                    ||| ('a' <= #[trigger] id[i] && id[i] <= 'z')
                    ||| ('A' <= id[i] && id[i] <= 'Z')
                    ||| ('0' <= id[i] && id[i] <= '9')
                    ||| id[i] == '-'
                    ||| id[i] == '_'
                    ||| id[i] == '.'
                }
        },
        is_safe_id(id) ==> record_file(record_dir, id) is Ok,
        !is_safe_id(id) ==> record_file(record_dir, id) == Err::<Seq<char>, RollbackErrorView>(
            RollbackErrorView::InvalidRecordId { id },
        ),
{
    assert forall|i: int| 0 <= i < id.len() implies #[trigger] crate::store::is_safe_char(id[i]) == {
        ||| ('a' <= id[i] && id[i] <= 'z')
        ||| ('A' <= id[i] && id[i] <= 'Z')
        ||| ('0' <= id[i] && id[i] <= '9')
        ||| id[i] == '-'
        ||| id[i] == '_'
        ||| id[i] == '.'
    } by {}
}

/// The records of a session lie in a directory of their own, below that of their profile in
/// the state directory of the workspace, each in a file of its id.
pub proof fn records_are_kept_by_session(
    context: AgentContextView,
    workspace: Seq<char>,
    id: Seq<char>,
)
    requires
        is_plain_name(safe_segment(context.profile)),
        is_plain_name(safe_segment(context.session_id)),
        is_safe_id(id),
    ensures
        ({
            let m = manager_for(context, workspace);
            let state = components(workspace) + seq![".rust-codingagent"@, "rollback"@];
            let directory = state + seq![
                safe_segment(context.profile),
                safe_segment(context.session_id),
            ];
            &&& m.workspace == workspace
            &&& m.context == context
            &&& components(m.record_dir) == directory
            &&& components(record_file(m.record_dir, id)->Ok_0) == directory.push(id + ".toml"@)
        }),
{
    let m = manager_for(context, workspace);
    reveal_strlit(".rust-codingagent");
    reveal_strlit("rollback");
    reveal_strlit(".toml");
    let a = crate::path::joined_path(workspace, ".rust-codingagent"@);
    let b = crate::path::joined_path(a, "rollback"@);
    let c = crate::path::joined_path(b, safe_segment(context.profile));
    assert(".rust-codingagent"@.len() == 17 && "rollback"@.len() == 8);
    assert(is_plain_name(".rust-codingagent"@));
    assert(is_plain_name("rollback"@));
    joined_name_is_below(workspace, ".rust-codingagent"@);
    joined_name_is_below(a, "rollback"@);
    joined_name_is_below(b, safe_segment(context.profile));
    joined_name_is_below(c, safe_segment(context.session_id));
    let name = id + ".toml"@;
    assert(name.len() > 5);
    assert(is_plain_name(name)) by {
        assert forall|i: int| 0 <= i < name.len() implies #[trigger] name[i] != '/' by {
            if i < id.len() {
                assert(crate::store::is_safe_char(id[i]));
                assert(name[i] == id[i]);
            }
        }
    }
    joined_name_is_below(m.record_dir, name);
    let state = components(workspace) + seq![".rust-codingagent"@, "rollback"@];
    assert(components(workspace).push(".rust-codingagent"@).push("rollback"@) =~= state);
    assert(state.push(safe_segment(context.profile)).push(safe_segment(context.session_id))
        =~= state + seq![safe_segment(context.profile), safe_segment(context.session_id)]);
}

} // verus!
