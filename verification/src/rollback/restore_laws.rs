//! What going back does to the files of a workspace, from its first step to its report.
use vstd::prelude::*;
use crate::rollback::manager::absolute_of;
use crate::rollback::record::{RestoreReportView, RestoredFileView};
use crate::rollback::restore::{
    restore_next, restore_reply, restore_start, RestoreMove, RestorePhaseView, RestoreReplyView,
    RestoreRunView, RestoreStepView,
};
use crate::rollback::snapshot::{
    action_to_restore, is_whole, snapshot_of, FileSnapshotView, RestoreAction,
};
use crate::tools::tool::FileStateView;

verus! {

/// What stands at a path, where `disk` holds all that is there.
pub open spec fn state_at(disk: Map<Seq<char>, FileStateView>, path: Seq<char>) -> FileStateView {
    if disk.contains_key(path) {
        disk[path]
    } else {
        FileStateView::Missing
    }
}

/// How far a step is from the end of its file.
pub open spec fn steps_left(step: RestoreStepView) -> nat {
    match step {
        RestoreStepView::Inspect { path } => 2,
        RestoreStepView::WriteFile { path, content } => 1,
        RestoreStepView::DeleteFile { path } => 1,
        _ => 0,
    }
}

/// How many files are still to be gone back to.
pub open spec fn files_left(run: RestoreRunView) -> nat {
    if run.files.len() < run.snapshots.len() {
        (run.snapshots.len() - run.files.len()) as nat
    } else {
        0
    }
}

/// Carries out every step on the disk, and answers it, until there is a report or an
/// error: what the disk then holds, and the last step.
pub open spec fn carried_through(
    workspace: Seq<char>,
    disk: Map<Seq<char>, FileStateView>,
    m: RestoreMove,
) -> (Map<Seq<char>, FileStateView>, RestoreStepView)
    decreases files_left(m.run), steps_left(m.step),
{
    match m.step {
        RestoreStepView::Inspect { path } => carried_through(
            workspace,
            disk,
            restore_reply(
                workspace,
                m.run,
                RestoreReplyView::Inspected { state: state_at(disk, path) },
            ),
        ),
        RestoreStepView::WriteFile { path, content } => carried_through(
            workspace,
            disk.insert(path, FileStateView::Text { content }),
            restore_reply(workspace, m.run, RestoreReplyView::Carried),
        ),
        RestoreStepView::DeleteFile { path } => carried_through(
            workspace,
            disk.remove(path),
            restore_reply(workspace, m.run, RestoreReplyView::Carried),
        ),
        _ => (disk, m.step),
    }
}

/// The file of a workspace that a snapshot is of.
pub open spec fn file_of(workspace: Seq<char>, snapshot: FileSnapshotView) -> Seq<char> {
    absolute_of(workspace, snapshot.path)->Ok_0
}

/// What a snapshot says that stood at its path.
pub open spec fn state_of(snapshot: FileSnapshotView) -> FileStateView {
    match snapshot.content {
        Some(content) => FileStateView::Text { content },
        None => FileStateView::Missing,
    }
}

/// Whether a list of snapshots can be gone back to: each is whole, of a file of the
/// workspace, and of another file than the others.
pub open spec fn can_go_back(workspace: Seq<char>, snapshots: Seq<FileSnapshotView>) -> bool {
    &&& forall|i: int|
        0 <= i < snapshots.len() ==> {
            &&& is_whole(#[trigger] snapshots[i])
            &&& absolute_of(workspace, snapshots[i].path) is Ok
        }
    &&& forall|i: int, j: int|
        0 <= i < j < snapshots.len() ==> file_of(workspace, snapshots[i]) != file_of(
            workspace,
            snapshots[j],
        )
}

/// Whether nothing or a text file stands at a path.
pub open spec fn is_text_or_missing(state: FileStateView) -> bool {
    state is Missing || state is Text
}

/// Whether nothing but text files stands in the places of snapshots.
pub open spec fn are_free(
    workspace: Seq<char>,
    disk: Map<Seq<char>, FileStateView>,
    snapshots: Seq<FileSnapshotView>,
) -> bool {
    forall|i: int|
        0 <= i < snapshots.len() ==> is_text_or_missing(
            state_at(disk, file_of(workspace, #[trigger] snapshots[i])),
        )
}

/// What going back does to a file.
pub open spec fn action_on(
    workspace: Seq<char>,
    disk: Map<Seq<char>, FileStateView>,
    target: FileSnapshotView,
) -> RestoreAction {
    let path = file_of(workspace, target);
    action_to_restore(snapshot_of(target.path, path, state_at(disk, path))->Ok_0, target)
}

/// What is reported of the files from `k` on.
pub open spec fn reported(
    workspace: Seq<char>,
    disk: Map<Seq<char>, FileStateView>,
    snapshots: Seq<FileSnapshotView>,
    k: int,
) -> Seq<RestoredFileView> {
    Seq::new(
        (snapshots.len() - k) as nat,
        |i: int|
            RestoredFileView {
                path: snapshots[k + i].path,
                action: action_on(workspace, disk, snapshots[k + i]),
            },
    )
}

/// Whether a disk is another one with the files of the snapshots from `k` on gone back to,
/// and nothing else changed.
pub open spec fn is_gone_back(
    workspace: Seq<char>,
    disk: Map<Seq<char>, FileStateView>,
    snapshots: Seq<FileSnapshotView>,
    k: int,
    after: Map<Seq<char>, FileStateView>,
) -> bool {
    &&& forall|i: int|
        k <= i < snapshots.len() ==> state_at(after, file_of(workspace, #[trigger] snapshots[i]))
            == state_of(snapshots[i])
    &&& forall|p: Seq<char>|
        (forall|i: int|
            k <= i < snapshots.len() ==> file_of(workspace, #[trigger] snapshots[i]) != p)
            ==> #[trigger] state_at(after, p) == state_at(disk, p)
}

/// The disk once one file was gone back to.
spec fn gone_back_one(
    disk: Map<Seq<char>, FileStateView>,
    path: Seq<char>,
    action: RestoreAction,
    target: FileSnapshotView,
) -> Map<Seq<char>, FileStateView> {
    match action {
        RestoreAction::RestorePreviousContent => disk.insert(path, state_of(target)),
        RestoreAction::DeleteCreatedFile => disk.remove(path),
        _ => disk,
    }
}

proof fn lemma_one_file(
    workspace: Seq<char>,
    disk: Map<Seq<char>, FileStateView>,
    run: RestoreRunView,
)
    requires
        run.files.len() < run.snapshots.len(),
        can_go_back(workspace, run.snapshots),
        is_text_or_missing(
            state_at(disk, file_of(workspace, run.snapshots[run.files.len() as int])),
        ),
    ensures
        ({
            let target = run.snapshots[run.files.len() as int];
            let path = file_of(workspace, target);
            let action = action_on(workspace, disk, target);
            let file = RestoredFileView { path: target.path, action };
            let after = gone_back_one(disk, path, action, target);
            let later = RestoreRunView { files: run.files.push(file), ..run };
            &&& carried_through(workspace, disk, restore_next(workspace, run)) == carried_through(
                workspace,
                after,
                restore_next(workspace, later),
            )
            &&& state_at(after, path) == state_of(target)
            &&& forall|p: Seq<char>| p != path ==> #[trigger] state_at(after, p) == state_at(disk, p)
        }),
{
    let k = run.files.len() as int;
    let target = run.snapshots[k];
    let path = file_of(workspace, target);
    let action = action_on(workspace, disk, target);
    let looking = restore_next(workspace, run);
    let seen = restore_reply(
        workspace,
        looking.run,
        RestoreReplyView::Inspected { state: state_at(disk, path) },
    );
    assert(is_whole(target));
    let file = RestoredFileView { path: target.path, action };
    let later = RestoreRunView { files: run.files.push(file), ..run };
    let next = restore_next(workspace, later);
    assert(carried_through(workspace, disk, looking) == carried_through(workspace, disk, seen));
    if action is RestorePreviousContent {
        let done = restore_reply(workspace, seen.run, RestoreReplyView::Carried);
        assert(done == next);
    } else if action is DeleteCreatedFile {
        let done = restore_reply(workspace, seen.run, RestoreReplyView::Carried);
        assert(done == next);
    } else {
        assert(seen == next);
    }
}

proof fn lemma_carried_through(
    workspace: Seq<char>,
    disk: Map<Seq<char>, FileStateView>,
    run: RestoreRunView,
)
    requires
        run.files.len() <= run.snapshots.len(),
        can_go_back(workspace, run.snapshots),
        forall|i: int|
            run.files.len() <= i < run.snapshots.len() ==> is_text_or_missing(
                state_at(disk, file_of(workspace, #[trigger] run.snapshots[i])),
            ),
    ensures
        ({
            let k = run.files.len() as int;
            let (after, step) = carried_through(workspace, disk, restore_next(workspace, run));
            &&& is_gone_back(workspace, disk, run.snapshots, k, after)
            &&& step == (RestoreStepView::Done {
                report: RestoreReportView {
                    record_id: run.record_id,
                    files: run.files + reported(workspace, disk, run.snapshots, k),
                },
            })
        }),
    decreases run.snapshots.len() - run.files.len(),
{
    let k = run.files.len() as int;
    let all = run.snapshots;
    if k == all.len() {
        assert(run.files + reported(workspace, disk, all, k) =~= run.files);
    } else {
        let target = all[k];
        let path = file_of(workspace, target);
        let action = action_on(workspace, disk, target);
        let file = RestoredFileView { path: target.path, action };
        let mid = gone_back_one(disk, path, action, target);
        let later = RestoreRunView { files: run.files.push(file), ..run };
        lemma_one_file(workspace, disk, run);
        assert forall|i: int| k < i < all.len() implies file_of(
            workspace,
            #[trigger] all[i],
        ) != path by {}
        assert forall|i: int| k + 1 <= i < all.len() implies is_text_or_missing(
            state_at(mid, file_of(workspace, #[trigger] all[i])),
        ) by {
            assert(state_at(mid, file_of(workspace, all[i])) == state_at(
                disk,
                file_of(workspace, all[i]),
            ));
        }
        lemma_carried_through(workspace, mid, later);
        let (after, step) = carried_through(workspace, disk, restore_next(workspace, run));
        let rest = reported(workspace, mid, all, k + 1);
        assert(run.files.push(file) + rest =~= run.files + reported(workspace, disk, all, k)) by {
            assert forall|i: int| k + 1 <= i < all.len() implies action_on(
                workspace,
                mid,
                #[trigger] all[i],
            ) == action_on(workspace, disk, all[i]) by {
                assert(state_at(mid, file_of(workspace, all[i])) == state_at(
                    disk,
                    file_of(workspace, all[i]),
                ));
            }
            let whole = run.files + reported(workspace, disk, all, k);
            let parts = run.files.push(file) + rest;
            assert(whole.len() == parts.len());
            assert forall|i: int| 0 <= i < whole.len() implies #[trigger] whole[i] == parts[i] by {
                if i > k {
                    assert(parts[i] == rest[i - k - 1]);
                    assert(whole[i] == reported(workspace, disk, all, k)[i - k]);
                    assert(all[k + 1 + (i - k - 1)] == all[i]);
                    assert(all[k + (i - k)] == all[i]);
                } else if i == k {
                    assert(whole[i] == reported(workspace, disk, all, k)[0]);
                }
            }
        }
        assert forall|i: int| k <= i < all.len() implies state_at(
            after,
            file_of(workspace, #[trigger] all[i]),
        ) == state_of(all[i]) by {
            if i == k {
                assert(state_at(after, path) == state_at(mid, path));
            }
        }
        assert forall|p: Seq<char>|
            (forall|i: int| k <= i < all.len() ==> file_of(workspace, #[trigger] all[i]) != p)
            implies #[trigger] state_at(after, p) == state_at(disk, p) by {
            assert(file_of(workspace, all[k]) != p);
            assert(state_at(mid, p) == state_at(disk, p));
        }
    }
}

/// Going back to a list of snapshots succeeds where nothing but text files stands in their
/// places. It reports just one entry for each snapshot, in their order, with what was done;
/// afterwards every file of the list is as its snapshot says, and no other file changed.
pub proof fn restore_brings_all_back(
    workspace: Seq<char>,
    disk: Map<Seq<char>, FileStateView>,
    id: Seq<char>,
    snapshots: Seq<FileSnapshotView>,
)
    requires
        can_go_back(workspace, snapshots),
        are_free(workspace, disk, snapshots),
    ensures
        ({
            let start = restore_start(workspace, id, snapshots);
            let (after, step) = carried_through(workspace, disk, start);
            &&& is_gone_back(workspace, disk, snapshots, 0, after)
            &&& step == (RestoreStepView::Done {
                report: RestoreReportView {
                    record_id: id,
                    files: reported(workspace, disk, snapshots, 0),
                },
            })
        }),
{
    let run = RestoreRunView {
        record_id: id,
        snapshots,
        files: Seq::empty(),
        phase: RestorePhaseView::Over,
    };
    lemma_carried_through(workspace, disk, run);
    let all = reported(workspace, disk, snapshots, 0);
    assert(Seq::<RestoredFileView>::empty() + all =~= all);
}

/// Going back a second time changes nothing, and reports only files that are as they were
/// or were never there.
pub proof fn restore_is_idempotent(
    workspace: Seq<char>,
    disk: Map<Seq<char>, FileStateView>,
    id: Seq<char>,
    snapshots: Seq<FileSnapshotView>,
)
    requires
        can_go_back(workspace, snapshots),
        are_free(workspace, disk, snapshots),
    ensures
        ({
            let start = restore_start(workspace, id, snapshots);
            let once = carried_through(workspace, disk, start).0;
            let (twice, step) = carried_through(workspace, once, start);
            &&& forall|p: Seq<char>| #[trigger] state_at(twice, p) == state_at(once, p)
            &&& step is Done
            &&& step->report.files.len() == snapshots.len()
            &&& forall|i: int|
                0 <= i < snapshots.len() ==> {
                    ||| (#[trigger] step->report.files[i]).action is NoChange
                    ||| step->report.files[i].action is NothingToRestore
                }
        }),
{
    let start = restore_start(workspace, id, snapshots);
    let once = carried_through(workspace, disk, start).0;
    restore_brings_all_back(workspace, disk, id, snapshots);
    assert forall|i: int| 0 <= i < snapshots.len() implies is_text_or_missing(
        state_at(once, file_of(workspace, #[trigger] snapshots[i])),
    ) by {
        assert(state_at(once, file_of(workspace, snapshots[i])) == state_of(snapshots[i]));
    }
    restore_brings_all_back(workspace, once, id, snapshots);
    let (twice, step) = carried_through(workspace, once, start);
    assert forall|p: Seq<char>| #[trigger] state_at(twice, p) == state_at(once, p) by {
        if exists|i: int|
            0 <= i < snapshots.len() && file_of(workspace, #[trigger] snapshots[i]) == p {
            let i = choose|i: int|
                0 <= i < snapshots.len() && file_of(workspace, #[trigger] snapshots[i]) == p;
            assert(state_at(once, p) == state_of(snapshots[i]));
            assert(state_at(twice, p) == state_of(snapshots[i]));
        }
    }
    assert forall|i: int| 0 <= i < snapshots.len() implies {
        ||| (#[trigger] step->report.files[i]).action is NoChange
        ||| step->report.files[i].action is NothingToRestore
    } by {
        assert(state_at(once, file_of(workspace, snapshots[i])) == state_of(snapshots[i]));
        assert(is_whole(snapshots[i]));
        assert(snapshots[0 + i] == snapshots[i]);
    }
}

} // verus!
