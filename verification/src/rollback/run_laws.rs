//! What a recorded run leaves behind, from its first step to its report.
use vstd::prelude::*;
use crate::path::{absolute, normalized};
use crate::path_laws::{different_relative_paths_lead_apart, normalize_is_idempotent};
use crate::rollback::manager::{
    absolute_of, candidate_of, has_snapshot, mutated_path, next_missing, paths_of_run,
    record_file, record_of_run, relative_of, reported_path, run_after, run_reply, run_start,
    RollbackManagerView, RollbackRunView, RunMove, RunPhaseView, RunReplyView, RunStepView,
    MAX_RECORD_IDS,
};
use crate::rollback::record::{
    changes, record_id, record_ids_are_safe, RecordedToolOutputView, RestoreReportView,
    RollbackRecordView,
};
use crate::rollback::restore::{restore_start, RestoreStepView};
use crate::rollback::restore_laws::{
    are_free, can_go_back, carried_through, file_of, is_text_or_missing, reported,
    restore_brings_all_back, state_at, state_of,
};
use crate::rollback::snapshot::{
    kind_of_change, snapshot_of, FileSnapshotView, RollbackErrorView,
};
use crate::tools::tool::{FileStateView, ToolOutputView, ToolRequestView};

verus! {

/// What a run finds: what stands on the disk, and the records by their files.
pub struct World {
    pub disk: Map<Seq<char>, FileStateView>,
    pub records: Map<Seq<char>, RollbackRecordView>,
}

/// What a tool does: the disk behind it, and what it reports.
pub struct ToolEffect {
    pub disk: Map<Seq<char>, FileStateView>,
    pub output: ToolOutputView,
}

/// What does not change during a run: the manager, the request, where paths lead, what the
/// tool does, and when the run ends.
pub struct RunSetting {
    pub manager: RollbackManagerView,
    pub request: ToolRequestView,
    pub canonical: spec_fn(Seq<char>) -> Seq<char>,
    pub effect: ToolEffect,
    pub now: u64,
}

/// A run on its way: the world, and the phase with the step that it waits for.
pub struct RunPoint {
    pub world: World,
    pub at: RunMove,
}

/// Carries out a step in the world: the world behind it, and the answer.
pub open spec fn answered(s: RunSetting, world: World, step: RunStepView) -> (World, RunReplyView) {
    match step {
        RunStepView::RunTool => (
            World { disk: s.effect.disk, ..world },
            RunReplyView::ToolDone { output: s.effect.output },
        ),
        RunStepView::Resolve { path } => (
            world,
            if state_at(world.disk, path) is Missing {
                RunReplyView::Missing
            } else {
                RunReplyView::Resolved { path: (s.canonical)(path) }
            },
        ),
        RunStepView::Inspect { path } => (
            world,
            RunReplyView::Inspected { state: state_at(world.disk, path) },
        ),
        RunStepView::CheckRecord { directory, file } => (
            world,
            if world.records.contains_key(file) {
                RunReplyView::Taken
            } else {
                RunReplyView::Free
            },
        ),
        RunStepView::SaveRecord { file, record } => (
            World { records: world.records.insert(file, record), ..world },
            RunReplyView::Saved,
        ),
        _ => (world, RunReplyView::Missing),
    }
}

/// Whether a run is over.
pub open spec fn is_over(p: RunPoint) -> bool {
    p.at.step is Done || p.at.step is Fail
}

/// A run once its step was carried out.
pub open spec fn next_point(s: RunSetting, p: RunPoint) -> RunPoint {
    let (world, reply) = answered(s, p.world, p.at.step);
    let run = RollbackRunView { request: s.request, phase: p.at.phase };
    RunPoint { world, at: run_reply(s.manager, run, reply, s.now) }
}

/// A run that starts in a world, once at most `n` steps were carried out.
pub open spec fn point_after(s: RunSetting, world: World, n: nat) -> RunPoint
    decreases n,
{
    if n == 0 {
        RunPoint { world, at: run_start(s.manager, s.request) }
    } else {
        let before = point_after(s, world, (n - 1) as nat);
        if is_over(before) {
            before
        } else {
            next_point(s, before)
        }
    }
}

/// Where a path of a workspace leads on a disk, relative to the workspace.
pub open spec fn led_to(
    s: RunSetting,
    disk: Map<Seq<char>, FileStateView>,
    path: Seq<char>,
) -> Option<Seq<char>> {
    match candidate_of(s.manager.workspace, path) {
        Ok(candidate) => {
            let resolved = if state_at(disk, candidate) is Missing {
                candidate
            } else {
                (s.canonical)(candidate)
            };
            match relative_of(s.manager.workspace, resolved) {
                Ok(relative) => Some(relative),
                Err(e) => None,
            }
        },
        Err(e) => None,
    }
}

/// The file that a request is about to change, relative to the workspace.
pub open spec fn target_of(s: RunSetting, world: World) -> Option<Seq<char>> {
    match mutated_path(s.request) {
        Some(path) => led_to(s, world.disk, path),
        None => None,
    }
}

/// What stands at a path of a workspace.
pub open spec fn state_below(
    workspace: Seq<char>,
    disk: Map<Seq<char>, FileStateView>,
    relative: Seq<char>,
) -> FileStateView {
    state_at(disk, absolute_of(workspace, relative)->Ok_0)
}

/// Whether the tool changes the file that the request is about.
pub open spec fn changes_target(s: RunSetting, world: World) -> bool {
    let target = target_of(s, world);
    target is Some && state_below(s.manager.workspace, world.disk, target->0) != state_below(
        s.manager.workspace,
        s.effect.disk,
        target->0,
    )
}

/// The snapshot of a path of a workspace.
spec fn snapshot_below(
    workspace: Seq<char>,
    disk: Map<Seq<char>, FileStateView>,
    relative: Seq<char>,
) -> FileSnapshotView {
    snapshot_of(
        relative,
        absolute_of(workspace, relative)->Ok_0,
        state_below(workspace, disk, relative),
    )->Ok_0
}

/// Whether a relative path of a workspace can be gone back to.
spec fn is_record_path(
    workspace: Seq<char>,
    disk: Map<Seq<char>, FileStateView>,
    relative: Seq<char>,
) -> bool {
    &&& absolute_of(workspace, relative) is Ok
    &&& normalized(relative) == relative
    &&& is_text_or_missing(state_below(workspace, disk, relative))
}

/// Whether a snapshot is the one that was taken before the tool ran.
spec fn is_first(s: RunSetting, world: World, before: FileSnapshotView) -> bool {
    let target = target_of(s, world);
    &&& target is Some
    &&& is_record_path(s.manager.workspace, world.disk, target->0)
    &&& before == snapshot_below(s.manager.workspace, world.disk, target->0)
}

/// Whether a snapshot is of the same file, taken after the tool ran.
spec fn is_second(s: RunSetting, world: World, after: FileSnapshotView) -> bool {
    let target = target_of(s, world);
    &&& is_record_path(s.manager.workspace, s.effect.disk, target->0)
    &&& after == snapshot_below(s.manager.workspace, s.effect.disk, target->0)
}

/// Whether the changed paths are the target and at most one other.
spec fn are_paths(s: RunSetting, world: World, paths: Seq<Seq<char>>) -> bool {
    &&& 1 <= paths.len() <= 2
    &&& target_of(s, world) == Some(paths[0])
    &&& paths.len() == 2 ==> paths[1] != paths[0] && normalized(paths[1]) == paths[1]
}

/// Whether a record is that of a run that changed the target.
spec fn is_record(s: RunSetting, world: World, record: RollbackRecordView, file: Seq<char>) -> bool {
    let m = s.manager;
    let before = record.before_snapshot;
    &&& changes_target(s, world)
    &&& record_file(m.record_dir, record.id) == Ok::<
        Seq<char>,
        RollbackErrorView,
    >(file)
    &&& before.len() > 0
    &&& is_first(s, world, before[0])
    &&& absolute(m.workspace) ==> can_go_back(m.workspace, before)
}

spec fn run_inv(s: RunSetting, world: World, p: RunPoint) -> bool {
    let m = s.manager;
    let ran = World { disk: s.effect.disk, ..world };
    match p.at.phase {
        RunPhaseView::Plain => {
            &&& mutated_path(s.request) is None
            &&& p.at.step == RunStepView::RunTool
            &&& p.world == world
        },
        RunPhaseView::Target { candidate } => {
            &&& mutated_path(s.request) is Some
            &&& candidate_of(m.workspace, mutated_path(s.request)->0) is Ok
            &&& candidate_of(m.workspace, mutated_path(s.request)->0)->Ok_0 == candidate
            &&& p.at.step == (RunStepView::Resolve { path: candidate })
            &&& p.world == world
        },
        RunPhaseView::Before { relative, absolute_path } => {
            &&& target_of(s, world) == Some(relative)
            &&& normalized(relative) == relative
            &&& absolute_of(m.workspace, relative) is Ok
            &&& absolute_of(m.workspace, relative)->Ok_0 == absolute_path
            &&& p.at.step == (RunStepView::Inspect { path: absolute_path })
            &&& p.world == world
        },
        RunPhaseView::Tool { before } => {
            &&& is_first(s, world, before)
            &&& p.at.step == RunStepView::RunTool
            &&& p.world == world
        },
        RunPhaseView::Reported { before, output, candidate } => {
            &&& is_first(s, world, before)
            &&& output == s.effect.output
            &&& p.at.step == (RunStepView::Resolve { path: candidate })
            &&& p.world == ran
        },
        RunPhaseView::After { before, output, paths, after, absolute_path } => {
            &&& is_first(s, world, before)
            &&& output == s.effect.output
            &&& are_paths(s, world, paths)
            &&& after.len() < paths.len()
            &&& after.len() > 0 ==> is_second(s, world, after[0])
            &&& absolute_of(m.workspace, paths[after.len() as int]) is Ok
            &&& absolute_of(m.workspace, paths[after.len() as int])->Ok_0 == absolute_path
            &&& p.at.step == (RunStepView::Inspect { path: absolute_path })
            &&& p.world == ran
        },
        RunPhaseView::Fill { before, output, paths, after, index, absolute_path } => {
            &&& before.len() == 1
            &&& is_first(s, world, before[0])
            &&& output == s.effect.output
            &&& are_paths(s, world, paths)
            &&& paths.len() == 2
            &&& after.len() == 2
            &&& is_second(s, world, after[0])
            &&& is_record_path(m.workspace, s.effect.disk, paths[1])
            &&& after[1] == snapshot_below(m.workspace, s.effect.disk, paths[1])
            &&& index == 1
            &&& absolute_of(m.workspace, paths[1]) is Ok
            &&& absolute_of(m.workspace, paths[1])->Ok_0 == absolute_path
            &&& p.at.step == (RunStepView::Inspect { path: absolute_path })
            &&& p.world == ran
        },
        RunPhaseView::Allocate { record, output, suffix, file } => {
            &&& output == s.effect.output
            &&& suffix < MAX_RECORD_IDS
            &&& record == record_of_run(
                m,
                s.request,
                record.before_snapshot,
                record.after_snapshot,
                s.now,
                suffix,
            )
            &&& is_record(s, world, record, file)
            &&& p.at.step == (RunStepView::CheckRecord { directory: m.record_dir, file })
            &&& p.world == ran
        },
        RunPhaseView::Save { record, output } => {
            &&& output == s.effect.output
            &&& p.at.step is SaveRecord
            &&& p.at.step->record == record
            &&& !world.records.contains_key(p.at.step->SaveRecord_file)
            &&& is_record(s, world, record, p.at.step->SaveRecord_file)
            &&& p.world == ran
        },
        RunPhaseView::Over => {
            &&& is_over(p)
            &&& p.at.step is Done ==> is_outcome(s, world, p.world, p.at.step->recorded)
        },
    }
}

/// Whether a run that started in `world` may end in `last` with this report: with a record
/// just where the target changed, which is then the one new record, and without one just
/// where it did not.
pub open spec fn is_outcome(
    s: RunSetting,
    world: World,
    last: World,
    recorded: RecordedToolOutputView,
) -> bool {
    &&& recorded.output == s.effect.output
    &&& last.disk == s.effect.disk
    &&& recorded.record is Some <==> changes_target(s, world)
    &&& match recorded.record {
        Some(record) => {
            let file = record_file(s.manager.record_dir, record.id);
            &&& file is Ok
            &&& !world.records.contains_key(file->Ok_0)
            &&& last.records == world.records.insert(file->Ok_0, record)
            &&& record.before_snapshot.len() > 0
            &&& Some(record.before_snapshot[0].path) == target_of(s, world)
            &&& is_snapshot_of(s.manager.workspace, world.disk, record.before_snapshot[0])
            &&& absolute(s.manager.workspace) ==> can_go_back(
                s.manager.workspace,
                record.before_snapshot,
            )
        },
        None => last.records == world.records,
    }
}

/// Whether a snapshot says what stood at its path.
pub open spec fn is_snapshot_of(
    workspace: Seq<char>,
    disk: Map<Seq<char>, FileStateView>,
    snapshot: FileSnapshotView,
) -> bool {
    let state = state_below(workspace, disk, snapshot.path);
    snapshot_of(snapshot.path, file_of(workspace, snapshot), state) == Ok::<
        FileSnapshotView,
        RollbackErrorView,
    >(snapshot)
}

proof fn lemma_relative_is_normalized(workspace: Seq<char>, resolved: Seq<char>)
    ensures
        relative_of(workspace, resolved) is Ok ==> ({
            let r = relative_of(workspace, resolved)->Ok_0;
            normalized(r) == r
        }),
{
    normalize_is_idempotent(crate::path::relative_path(resolved, workspace));
}

/// One snapshot, or two of different paths, can be gone back to.
proof fn lemma_can_go_back(
    s: RunSetting,
    world: World,
    before: FileSnapshotView,
    other: FileSnapshotView,
    disk: Map<Seq<char>, FileStateView>,
)
    requires
        absolute(s.manager.workspace),
        is_first(s, world, before),
        is_record_path(s.manager.workspace, disk, other.path),
        other == snapshot_below(s.manager.workspace, disk, other.path),
        other.path != before.path,
    ensures
        can_go_back(s.manager.workspace, seq![before]),
        can_go_back(s.manager.workspace, seq![before, other]),
{
    let ws = s.manager.workspace;
    different_relative_paths_lead_apart(ws, before.path, other.path);
    let both = seq![before, other];
    assert forall|i: int, j: int| 0 <= i < j < both.len() implies file_of(ws, both[i]) != file_of(
        ws,
        both[j],
    ) by {
        assert(i == 0 && j == 1);
    }
}

proof fn lemma_changes_one(before: FileSnapshotView, after: FileSnapshotView)
    ensures
        changes(seq![before], seq![after]).len() > 0 <==> !(kind_of_change(before, after) is Unchanged),
{
    assert(seq![before].drop_first() =~= Seq::<FileSnapshotView>::empty());
    assert(changes(seq![before].drop_first(), seq![after].drop_first()).len() == 0);
}

proof fn lemma_changes_two(
    before: FileSnapshotView,
    after: FileSnapshotView,
    other: FileSnapshotView,
)
    ensures
        changes(seq![before, other], seq![after, other]).len() > 0 <==> !(kind_of_change(
            before,
            after,
        ) is Unchanged),
{
    assert(seq![before, other].drop_first() =~= seq![other]);
    assert(seq![after, other].drop_first() =~= seq![other]);
    lemma_changes_one(other, other);
}

proof fn lemma_after_tool(s: RunSetting, world: World, p: RunPoint)
    requires
        run_inv(s, world, p),
        p.at.phase is After,
    ensures
        run_inv(s, world, next_point(s, p)),
{
    let m = s.manager;
    match p.at.phase {
        RunPhaseView::After { before, output, paths, after, absolute_path } => {
            let state = state_at(p.world.disk, absolute_path);
            let path = paths[after.len() as int];
            if snapshot_of(path, absolute_path, state) is Ok {
                let snapshot = snapshot_of(path, absolute_path, state)->Ok_0;
                if after.len() + 1 < paths.len() {
                    assert(after.push(snapshot)[0] == snapshot);
                } else {
                    let all = after.push(snapshot);
                    assert(seq![before][0].path == paths[0]);
                    assert(has_snapshot(seq![before], paths[0]));
                    if paths.len() == 1 {
                        assert(all =~= seq![snapshot]);
                        assert(next_missing(seq![before], paths, 1) == 1);
                        assert(next_missing(seq![before], paths, 0) == 1);
                        lemma_changes_one(before, snapshot);
                        record_ids_are_safe(m.context.turn_index, s.now, 0);
                        if absolute(m.workspace) {
                            assert(can_go_back(m.workspace, seq![before]));
                        }
                    } else {
                        assert(!has_snapshot(seq![before], paths[1]));
                        assert(next_missing(seq![before], paths, 1) == 1);
                        assert(next_missing(seq![before], paths, 0) == 1);
                        assert(all[0] == after[0]);
                        assert(all[1] == snapshot);
                    }
                }
            }
        },
        _ => {},
    }
}

proof fn lemma_fill(s: RunSetting, world: World, p: RunPoint)
    requires
        run_inv(s, world, p),
        p.at.phase is Fill,
    ensures
        run_inv(s, world, next_point(s, p)),
{
    let m = s.manager;
    match p.at.phase {
        RunPhaseView::Fill { before, output, paths, after, index, absolute_path } => {
            let other = after[1];
            assert(before =~= seq![before[0]]);
            assert(before.push(other) =~= seq![before[0], other]);
            assert(after =~= seq![after[0], other]);
            lemma_changes_two(before[0], after[0], other);
            record_ids_are_safe(m.context.turn_index, s.now, 0);
            if absolute(m.workspace) {
                lemma_can_go_back(s, world, before[0], other, s.effect.disk);
            }
        },
        _ => {},
    }
}

proof fn lemma_target(s: RunSetting, world: World, p: RunPoint)
    requires
        run_inv(s, world, p),
        p.at.phase is Target,
    ensures
        run_inv(s, world, next_point(s, p)),
{
    let candidate = p.at.phase->Target_candidate;
    lemma_relative_is_normalized(s.manager.workspace, candidate);
    lemma_relative_is_normalized(s.manager.workspace, (s.canonical)(candidate));
}

proof fn lemma_before(s: RunSetting, world: World, p: RunPoint)
    requires
        run_inv(s, world, p),
        p.at.phase is Before,
    ensures
        run_inv(s, world, next_point(s, p)),
{
}

proof fn lemma_tool(s: RunSetting, world: World, p: RunPoint)
    requires
        run_inv(s, world, p),
        p.at.phase is Tool || p.at.phase is Plain,
    ensures
        run_inv(s, world, next_point(s, p)),
{
    if p.at.phase is Tool {
        let before = p.at.phase->Tool_before;
        assert(seq![before.path][0] == before.path);
    }
}

proof fn lemma_reported(s: RunSetting, world: World, p: RunPoint)
    requires
        run_inv(s, world, p),
        p.at.phase is Reported,
    ensures
        run_inv(s, world, next_point(s, p)),
{
    let m = s.manager;
    let before = p.at.phase->Reported_before;
    let output = p.at.phase->Reported_output;
    let candidate = p.at.phase->Reported_candidate;
    let resolved = if state_at(p.world.disk, candidate) is Missing {
        candidate
    } else {
        (s.canonical)(candidate)
    };
    lemma_relative_is_normalized(m.workspace, resolved);
    let next = next_point(s, p);
    if relative_of(m.workspace, resolved) is Ok {
        let relative = relative_of(m.workspace, resolved)->Ok_0;
        let paths = paths_of_run(before, relative);
        assert(next.at == run_after(m, before, output, paths, Seq::empty()));
        assert(before.path == target_of(s, world)->0);
        assert(are_paths(s, world, paths));
    } else {
        assert(next.at.step is Fail && next.at.phase is Over);
    }
}

proof fn lemma_allocate(s: RunSetting, world: World, p: RunPoint)
    requires
        run_inv(s, world, p),
        p.at.phase is Allocate,
    ensures
        run_inv(s, world, next_point(s, p)),
{
    let suffix = p.at.phase->suffix;
    if suffix + 1 < MAX_RECORD_IDS {
        record_ids_are_safe(s.manager.context.turn_index, s.now, (suffix + 1) as usize);
    }
}

proof fn lemma_save(s: RunSetting, world: World, p: RunPoint)
    requires
        run_inv(s, world, p),
        p.at.phase is Save,
    ensures
        run_inv(s, world, next_point(s, p)),
{
}

proof fn lemma_next_keeps_inv(s: RunSetting, world: World, p: RunPoint)
    requires
        run_inv(s, world, p),
        !is_over(p),
    ensures
        run_inv(s, world, next_point(s, p)),
{
    if p.at.phase is Target {
        lemma_target(s, world, p);
    } else if p.at.phase is Before {
        lemma_before(s, world, p);
    } else if p.at.phase is Tool || p.at.phase is Plain {
        lemma_tool(s, world, p);
    } else if p.at.phase is Reported {
        lemma_reported(s, world, p);
    } else if p.at.phase is After {
        lemma_after_tool(s, world, p);
    } else if p.at.phase is Fill {
        lemma_fill(s, world, p);
    } else if p.at.phase is Allocate {
        lemma_allocate(s, world, p);
    } else if p.at.phase is Save {
        lemma_save(s, world, p);
    }
}

proof fn lemma_points_keep_inv(s: RunSetting, world: World, n: nat)
    ensures
        run_inv(s, world, point_after(s, world, n)),
    decreases n,
{
    if n > 0 {
        let before = point_after(s, world, (n - 1) as nat);
        lemma_points_keep_inv(s, world, (n - 1) as nat);
        if !is_over(before) {
            lemma_next_keeps_inv(s, world, before);
        }
    }
}

/// A run that succeeds makes a record if and only if the tool changed the file that the
/// request is about; reading, searching and commands are about none. The record is then
/// the one new record, it begins with what stood there before, and without one all records
/// stay as they were.
pub proof fn recorded_if_and_only_if_changed(s: RunSetting, world: World, n: nat)
    ensures
        ({
            let p = point_after(s, world, n);
            p.at.step is Done ==> is_outcome(s, world, p.world, p.at.step->recorded)
        }),
        s.request is Read || s.request is Grep || s.request is Shell ==> !changes_target(s, world),
{
    lemma_points_keep_inv(s, world, n);
}

/// What a run that made a record changed can be taken back, whatever text files stand in the
/// recorded places by then: going back to the record succeeds and reports one entry for each
/// of its snapshots, the file that the request was about is as it was before the tool ran,
/// and no file but those of the record changes.
pub proof fn recorded_changes_can_be_undone(
    s: RunSetting,
    world: World,
    n: nat,
    later: Map<Seq<char>, FileStateView>,
)
    requires
        absolute(s.manager.workspace),
        point_after(s, world, n).at.step is Done,
        point_after(s, world, n).at.step->recorded.record is Some,
        are_free(
            s.manager.workspace,
            later,
            point_after(s, world, n).at.step->recorded.record->0.before_snapshot,
        ),
    ensures
        ({
            let ws = s.manager.workspace;
            let record = point_after(s, world, n).at.step->recorded.record->0;
            let before = record.before_snapshot;
            let (after, step) = carried_through(
                ws,
                later,
                restore_start(ws, record.id, before),
            );
            &&& step == (RestoreStepView::Done {
                report: RestoreReportView {
                    record_id: record.id,
                    files: reported(ws, later, before, 0),
                },
            })
            &&& target_of(s, world) is Some
            &&& state_below(ws, after, target_of(s, world)->0) == state_below(
                ws,
                world.disk,
                target_of(s, world)->0,
            )
            &&& forall|p: Seq<char>|
                (forall|i: int| 0 <= i < before.len() ==> file_of(ws, #[trigger] before[i]) != p)
                    ==> #[trigger] state_at(after, p) == state_at(later, p)
        }),
{
    let ws = s.manager.workspace;
    let record = point_after(s, world, n).at.step->recorded.record->0;
    let before = record.before_snapshot;
    recorded_if_and_only_if_changed(s, world, n);
    restore_brings_all_back(ws, later, record.id, before);
    let after = carried_through(ws, later, restore_start(ws, record.id, before)).0;
    assert(state_at(after, file_of(ws, before[0])) == state_of(before[0]));
}

/// The file of the record that a run makes where `suffix` ids are taken.
pub open spec fn record_file_of(s: RunSetting, suffix: nat) -> Seq<char> {
    let id = record_id(s.manager.context.turn_index, s.now, suffix as usize);
    record_file(s.manager.record_dir, id)->Ok_0
}

proof fn lemma_allocated(s: RunSetting, world: World, n: nat, suffix: nat, free: nat)
    requires
        suffix <= free < MAX_RECORD_IDS,
        forall|i: nat| i < free ==> world.records.contains_key(#[trigger] record_file_of(s, i)),
        !world.records.contains_key(record_file_of(s, free)),
        point_after(s, world, n).at.phase is Allocate,
        point_after(s, world, n).at.phase->suffix == suffix,
    ensures
        exists|last: nat| (#[trigger] point_after(s, world, last)).at.step is Done,
    decreases free - suffix,
{
    let p = point_after(s, world, n);
    lemma_points_keep_inv(s, world, n);
    assert(p.world.records == world.records);
    let record = p.at.phase->Allocate_record;
    let file = p.at.phase->Allocate_file;
    assert(file == record_file_of(s, suffix));
    let next = point_after(s, world, n + 1);
    assert(next == next_point(s, p));
    if suffix < free {
        assert(world.records.contains_key(record_file_of(s, suffix)));
        record_ids_are_safe(s.manager.context.turn_index, s.now, (suffix + 1) as usize);
        assert(next.at.phase is Allocate && next.at.phase->suffix == suffix + 1);
        lemma_allocated(s, world, n + 1, suffix + 1, free);
    } else {
        assert(next.at.phase is Save && next.at.step is SaveRecord);
        let last = point_after(s, world, n + 2);
        assert(last == next_point(s, next));
        assert(last.at.step is Done);
    }
}

/// A run whose tool succeeds succeeds too, where the file that the request is about lies in
/// the workspace, nothing but a text file stands there before and after, the tool reports
/// that file, and some id is free for a record.
pub proof fn recorded_runs_succeed(s: RunSetting, world: World, free: nat)
    requires
        target_of(s, world) is Some,
        absolute_of(s.manager.workspace, target_of(s, world)->0) is Ok,
        is_text_or_missing(
            state_below(s.manager.workspace, world.disk, target_of(s, world)->0),
        ),
        is_text_or_missing(
            state_below(s.manager.workspace, s.effect.disk, target_of(s, world)->0),
        ),
        reported_path(s.effect.output) is Some,
        led_to(s, s.effect.disk, reported_path(s.effect.output)->0) == target_of(s, world),
        free < MAX_RECORD_IDS,
        forall|i: nat| i < free ==> world.records.contains_key(#[trigger] record_file_of(s, i)),
        !world.records.contains_key(record_file_of(s, free)),
    ensures
        exists|last: nat| (#[trigger] point_after(s, world, last)).at.step is Done,
{
    let ws = s.manager.workspace;
    let relative = target_of(s, world)->0;
    let place = absolute_of(ws, relative)->Ok_0;
    let p0 = point_after(s, world, 0);
    let p1 = point_after(s, world, 1);
    let p2 = point_after(s, world, 2);
    let p3 = point_after(s, world, 3);
    let p4 = point_after(s, world, 4);
    let p5 = point_after(s, world, 5);
    lemma_points_keep_inv(s, world, 2);
    lemma_points_keep_inv(s, world, 4);
    lemma_points_keep_inv(s, world, 5);
    assert(p0.at.phase is Target);
    assert(p1 == next_point(s, p0));
    assert(p1.at.phase == (RunPhaseView::Before { relative, absolute_path: place }));
    assert(p2 == next_point(s, p1));
    assert(p2.at.phase is Tool);
    assert(p3 == next_point(s, p2));
    assert(p3.at.phase is Reported);
    assert(p4 == next_point(s, p3));
    let before = p2.at.phase->Tool_before;
    assert(before.path == relative);
    assert(p4.at.phase == (RunPhaseView::After {
        before,
        output: s.effect.output,
        paths: seq![relative],
        after: Seq::empty(),
        absolute_path: place,
    }));
    assert(p5 == next_point(s, p4));
    lemma_last_look(s, world, p4);
    if !(p5.at.step is Done) {
        lemma_allocated(s, world, 5, 0, free);
    }
}

proof fn lemma_last_look(s: RunSetting, world: World, p: RunPoint)
    requires
        run_inv(s, world, p),
        p.at.phase is After,
        p.at.phase->After_paths.len() == 1,
        is_text_or_missing(
            state_below(s.manager.workspace, s.effect.disk, target_of(s, world)->0),
        ),
    ensures
        ({
            let next = next_point(s, p);
            ||| next.at.step is Done
            ||| next.at.phase is Allocate && next.at.phase->suffix == 0
        }),
{
    let m = s.manager;
    match p.at.phase {
        RunPhaseView::After { before, output, paths, after, absolute_path } => {
            let state = state_at(p.world.disk, absolute_path);
            let snapshot = snapshot_of(paths[0], absolute_path, state)->Ok_0;
            assert(after.push(snapshot) =~= seq![snapshot]);
            assert(seq![before][0].path == paths[0]);
            assert(has_snapshot(seq![before], paths[0]));
            assert(next_missing(seq![before], paths, 1) == 1);
            assert(next_missing(seq![before], paths, 0) == 1);
            record_ids_are_safe(m.context.turn_index, s.now, 0);
        },
        _ => {},
    }
}

/// A tool that changes no file runs, and its run ends at once without a record.
pub proof fn plain_runs_succeed(s: RunSetting, world: World)
    requires
        s.request is Read || s.request is Grep || s.request is Shell,
    ensures
        ({
            let p = point_after(s, world, 1);
            &&& p.at.step == (RunStepView::Done {
                recorded: RecordedToolOutputView { output: s.effect.output, record: None },
            })
            &&& p.world.records == world.records
        }),
{
    let p0 = point_after(s, world, 0);
    assert(point_after(s, world, 1) == next_point(s, p0));
}

} // verus!
