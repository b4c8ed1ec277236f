//! Going back to the snapshots of a record, and showing beforehand what that would do.
use vstd::prelude::*;
use crate::path::{directory_of, parent_of, path_begins};
use crate::rollback::diff::{diff_is_faithful, line_diff, new_side};
use crate::rollback::manager::{absolute_of, relative_of, RollbackManager};
use crate::rollback::record::{
    copy_restored_files, file_rollback_preview_views, restored_file_views, FileRollbackPreview,
    FileRollbackPreviewView, RestoreReport, RestoreReportView, RestoredFile, RestoredFileView,
    RollbackPreview, RollbackPreviewView, RollbackRecord,
};
use crate::rollback::snapshot::{
    action_to_restore, content_or_empty, copy_file_snapshots, file_snapshot_views, render_diff,
    restore_action, snapshot_diff, snapshot_of, take_snapshot, FileSnapshot, FileSnapshotView,
    RestoreAction, RollbackError, RollbackErrorView,
};
use crate::text::{lines, opt_view, owned};
use crate::tools::tool::{FileState, FileStateView};

verus! {

/// What has to be done next to go back.
#[derive(Debug, PartialEq, Eq)]
pub enum RestoreStep {
    /// Look at a path: answered by `Inspected`.
    Inspect { path: String },
    /// Write a file, with the directories above it: answered by `Carried`, by `ParentFailed`
    /// where the directories cannot be made, or by `Failed`.
    WriteFile { path: String, content: String },
    /// Delete a file: answered by `Carried` or `Failed`.
    DeleteFile { path: String },
    /// All files are back.
    Done { report: RestoreReport },
    /// Going back failed.
    Fail { error: RollbackError },
}

/// The value of a `RestoreStep`.
pub enum RestoreStepView {
    Inspect { path: Seq<char> },
    WriteFile { path: Seq<char>, content: Seq<char> },
    DeleteFile { path: Seq<char> },
    Done { report: RestoreReportView },
    Fail { error: RollbackErrorView },
}

impl View for RestoreStep {
    type V = RestoreStepView;

    open spec fn view(&self) -> RestoreStepView {
        match self {
            RestoreStep::Inspect { path } => RestoreStepView::Inspect {
                path: path@,
            },
            RestoreStep::WriteFile { path, content } => RestoreStepView::WriteFile {
                path: path@,
                content: content@,
            },
            RestoreStep::DeleteFile { path } => RestoreStepView::DeleteFile {
                path: path@,
            },
            RestoreStep::Done { report } => RestoreStepView::Done {
                report: report@,
            },
            RestoreStep::Fail { error } => RestoreStepView::Fail {
                error: error@,
            },
        }
    }
}

/// The answer to a step.
#[derive(Debug, PartialEq, Eq)]
pub enum RestoreReply {
    Inspected { state: FileState },
    Carried,
    ParentFailed { reason: String },
    Failed { reason: String },
}

/// The value of a `RestoreReply`.
pub enum RestoreReplyView {
    Inspected { state: FileStateView },
    Carried,
    ParentFailed { reason: Seq<char> },
    Failed { reason: Seq<char> },
}

impl View for RestoreReply {
    type V = RestoreReplyView;

    open spec fn view(&self) -> RestoreReplyView {
        match self {
            RestoreReply::Inspected { state } => RestoreReplyView::Inspected {
                state: state@,
            },
            RestoreReply::Carried => RestoreReplyView::Carried,
            RestoreReply::ParentFailed { reason } => RestoreReplyView::ParentFailed {
                reason: reason@,
            },
            RestoreReply::Failed { reason } => RestoreReplyView::Failed {
                reason: reason@,
            },
        }
    }
}

/// What going back waits for.
#[derive(Debug, PartialEq, Eq)]
pub enum RestorePhase {
    /// What stands at the path of the next file.
    Look { path: String },
    /// That the file is written.
    Write { path: String },
    /// That the file is deleted.
    Delete { path: String },
    /// Nothing: it is over.
    Over,
}

/// The value of a `RestorePhase`.
pub enum RestorePhaseView {
    Look { path: Seq<char> },
    Write { path: Seq<char> },
    Delete { path: Seq<char> },
    Over,
}

impl View for RestorePhase {
    type V = RestorePhaseView;

    open spec fn view(&self) -> RestorePhaseView {
        match self {
            RestorePhase::Look { path } => RestorePhaseView::Look {
                path: path@,
            },
            RestorePhase::Write { path } => RestorePhaseView::Write {
                path: path@,
            },
            RestorePhase::Delete { path } => RestorePhaseView::Delete {
                path: path@,
            },
            RestorePhase::Over => RestorePhaseView::Over,
        }
    }
}

/// Going back to a list of snapshots, file by file.
#[derive(Debug, PartialEq, Eq)]
pub struct RestoreRun {
    pub record_id: String,
    pub snapshots: Vec<FileSnapshot>,
    pub files: Vec<RestoredFile>,
    pub phase: RestorePhase,
}

/// The value of a `RestoreRun`.
pub struct RestoreRunView {
    pub record_id: Seq<char>,
    pub snapshots: Seq<FileSnapshotView>,
    pub files: Seq<RestoredFileView>,
    pub phase: RestorePhaseView,
}

impl View for RestoreRun {
    type V = RestoreRunView;

    open spec fn view(&self) -> RestoreRunView {
        RestoreRunView {
            record_id: self.record_id@,
            snapshots: file_snapshot_views(self.snapshots@),
            files: restored_file_views(self.files@),
            phase: self.phase@,
        }
    }
}

/// What has to be done next to show what going back would do.
#[derive(Debug, PartialEq, Eq)]
pub enum PreviewStep {
    /// Look at a path: answered by what stands there.
    Inspect { path: String },
    /// The preview is complete.
    Done { preview: RollbackPreview },
    /// There is no preview.
    Fail { error: RollbackError },
}

/// The value of a `PreviewStep`.
pub enum PreviewStepView {
    Inspect { path: Seq<char> },
    Done { preview: RollbackPreviewView },
    Fail { error: RollbackErrorView },
}

impl View for PreviewStep {
    type V = PreviewStepView;

    open spec fn view(&self) -> PreviewStepView {
        match self {
            PreviewStep::Inspect { path } => PreviewStepView::Inspect {
                path: path@,
            },
            PreviewStep::Done { preview } => PreviewStepView::Done {
                preview: preview@,
            },
            PreviewStep::Fail { error } => PreviewStepView::Fail {
                error: error@,
            },
        }
    }
}

/// Showing what going back would do, file by file; `waiting` is the path to be looked at.
#[derive(Debug, PartialEq, Eq)]
pub struct PreviewRun {
    pub record_id: String,
    pub snapshots: Vec<FileSnapshot>,
    pub files: Vec<FileRollbackPreview>,
    pub waiting: Option<String>,
}

/// The value of a `PreviewRun`.
pub struct PreviewRunView {
    pub record_id: Seq<char>,
    pub snapshots: Seq<FileSnapshotView>,
    pub files: Seq<FileRollbackPreviewView>,
    pub waiting: Option<Seq<char>>,
}

impl View for PreviewRun {
    type V = PreviewRunView;

    open spec fn view(&self) -> PreviewRunView {
        PreviewRunView {
            record_id: self.record_id@,
            snapshots: file_snapshot_views(self.snapshots@),
            files: file_rollback_preview_views(self.files@),
            waiting: opt_view(self.waiting),
        }
    }
}

/// A run and the step that it waits for.
pub struct RestoreMove {
    pub run: RestoreRunView,
    pub step: RestoreStepView,
}

/// The move that ends going back with an error.
pub open spec fn restore_fail(run: RestoreRunView, error: RollbackErrorView) -> RestoreMove {
    RestoreMove {
        run: RestoreRunView { phase: RestorePhaseView::Over, ..run },
        step: RestoreStepView::Fail { error },
    }
}

/// The move to the next file, or to the report.
pub open spec fn restore_next(workspace: Seq<char>, run: RestoreRunView) -> RestoreMove {
    if run.files.len() >= run.snapshots.len() {
        RestoreMove {
            run: RestoreRunView { phase: RestorePhaseView::Over, ..run },
            step: RestoreStepView::Done {
                report: RestoreReportView { record_id: run.record_id, files: run.files },
            },
        }
    } else {
        match absolute_of(workspace, run.snapshots[run.files.len() as int].path) {
            Ok(path) => RestoreMove {
                run: RestoreRunView { phase: RestorePhaseView::Look { path }, ..run },
                step: RestoreStepView::Inspect { path },
            },
            Err(error) => restore_fail(run, error),
        }
    }
}

/// The move that notes what was done to a file and goes on.
pub open spec fn restore_noted(
    workspace: Seq<char>,
    run: RestoreRunView,
    action: RestoreAction,
) -> RestoreMove {
    let path = run.snapshots[run.files.len() as int].path;
    restore_next(
        workspace,
        RestoreRunView { files: run.files.push(RestoredFileView { path, action }), ..run },
    )
}

/// The move that carries out an action.
pub open spec fn restore_act(
    workspace: Seq<char>,
    run: RestoreRunView,
    path: Seq<char>,
    action: RestoreAction,
) -> RestoreMove {
    let target = run.snapshots[run.files.len() as int];
    match action {
        RestoreAction::RestorePreviousContent => RestoreMove {
            run: RestoreRunView { phase: RestorePhaseView::Write { path }, ..run },
            step: RestoreStepView::WriteFile { path, content: content_or_empty(target) },
        },
        RestoreAction::DeleteCreatedFile => RestoreMove {
            run: RestoreRunView { phase: RestorePhaseView::Delete { path }, ..run },
            step: RestoreStepView::DeleteFile { path },
        },
        _ => restore_noted(workspace, run, action),
    }
}

/// How going back goes on with a reply.
pub open spec fn restore_reply(
    workspace: Seq<char>,
    run: RestoreRunView,
    reply: RestoreReplyView,
) -> RestoreMove {
    if run.files.len() >= run.snapshots.len() {
        restore_fail(run, RollbackErrorView::UnexpectedReply)
    } else {
        let target = run.snapshots[run.files.len() as int];
        match (run.phase, reply) {
            (RestorePhaseView::Look { path }, RestoreReplyView::Inspected { state }) => {
                match snapshot_of(target.path, path, state) {
                    Ok(current) => restore_act(
                        workspace,
                        run,
                        path,
                        action_to_restore(current, target),
                    ),
                    Err(error) => restore_fail(run, error),
                }
            },
            (RestorePhaseView::Write { path }, RestoreReplyView::Carried) => restore_noted(
                workspace,
                run,
                RestoreAction::RestorePreviousContent,
            ),
            (RestorePhaseView::Delete { path }, RestoreReplyView::Carried) => restore_noted(
                workspace,
                run,
                RestoreAction::DeleteCreatedFile,
            ),
            (
                RestorePhaseView::Write { path },
                RestoreReplyView::ParentFailed { reason },
            ) => restore_fail(
                run,
                RollbackErrorView::CreateDirectory { path: directory_of(path), reason },
            ),
            (RestorePhaseView::Write { path }, RestoreReplyView::Failed { reason }) => restore_fail(
                run,
                RollbackErrorView::RestoreFailed { path, reason },
            ),
            (
                RestorePhaseView::Delete { path },
                RestoreReplyView::Failed { reason },
            ) => restore_fail(run, RollbackErrorView::DeleteFailed { path, reason }),
            _ => restore_fail(run, RollbackErrorView::UnexpectedReply),
        }
    }
}

/// How going back to a list of snapshots starts.
pub open spec fn restore_start(
    workspace: Seq<char>,
    id: Seq<char>,
    snapshots: Seq<FileSnapshotView>,
) -> RestoreMove {
    restore_next(
        workspace,
        RestoreRunView {
            record_id: id,
            snapshots,
            files: Seq::empty(),
            phase: RestorePhaseView::Over,
        },
    )
}

/// The first snapshot of a path.
pub open spec fn find_snapshot(
    snapshots: Seq<FileSnapshotView>,
    path: Seq<char>,
) -> Option<FileSnapshotView>
    decreases snapshots.len(),
{
    if snapshots.len() == 0 {
        None
    } else if snapshots[0].path == path {
        Some(snapshots[0])
    } else {
        find_snapshot(snapshots.drop_first(), path)
    }
}

/// A preview run and the step that it waits for.
pub struct PreviewMove {
    pub run: PreviewRunView,
    pub step: PreviewStepView,
}

/// The move that ends a preview with an error.
pub open spec fn preview_fail(run: PreviewRunView, error: RollbackErrorView) -> PreviewMove {
    PreviewMove {
        run: PreviewRunView { waiting: None, ..run },
        step: PreviewStepView::Fail { error },
    }
}

/// The move to the next file of a preview, or to its end.
pub open spec fn preview_next(workspace: Seq<char>, run: PreviewRunView) -> PreviewMove {
    if run.files.len() >= run.snapshots.len() {
        PreviewMove {
            run: PreviewRunView { waiting: None, ..run },
            step: PreviewStepView::Done {
                preview: RollbackPreviewView { record_id: run.record_id, files: run.files },
            },
        }
    } else {
        match absolute_of(workspace, run.snapshots[run.files.len() as int].path) {
            Ok(path) => PreviewMove {
                run: PreviewRunView { waiting: Some(path), ..run },
                step: PreviewStepView::Inspect { path },
            },
            Err(error) => preview_fail(run, error),
        }
    }
}

/// What a preview shows of a file: the action that going back takes, and the difference
/// from what stands there to what will.
pub open spec fn preview_of(
    current: FileSnapshotView,
    target: FileSnapshotView,
) -> FileRollbackPreviewView {
    FileRollbackPreviewView {
        path: target.path,
        action: action_to_restore(current, target),
        diff: snapshot_diff(target.path, current, target, "current"@, "rollback"@),
    }
}

/// How a preview goes on once it is known what stands at a path.
pub open spec fn preview_reply(
    workspace: Seq<char>,
    run: PreviewRunView,
    state: FileStateView,
) -> PreviewMove {
    if run.files.len() >= run.snapshots.len() || run.waiting is None {
        preview_fail(run, RollbackErrorView::UnexpectedReply)
    } else {
        let target = run.snapshots[run.files.len() as int];
        match snapshot_of(target.path, run.waiting->0, state) {
            Ok(current) => preview_next(
                workspace,
                PreviewRunView { files: run.files.push(preview_of(current, target)), ..run },
            ),
            Err(error) => preview_fail(run, error),
        }
    }
}

// ---------------------------------------------------------------------------
// Executable code
// ---------------------------------------------------------------------------

fn fail(run: RestoreRun, error: RollbackError) -> (r: (RestoreRun, RestoreStep))
    ensures
        (RestoreMove { run: r.0@, step: r.1@ }) == restore_fail(run@, error@),
{
    let mut run = run;
    run.phase = RestorePhase::Over;
    (run, RestoreStep::Fail { error })
}

fn preview_error(run: PreviewRun, error: RollbackError) -> (r: (PreviewRun, PreviewStep))
    ensures
        (PreviewMove { run: r.0@, step: r.1@ }) == preview_fail(run@, error@),
{
    let mut run = run;
    run.waiting = None;
    (run, PreviewStep::Fail { error })
}

impl RollbackManager {
    fn next_file(&self, run: RestoreRun) -> (r: (RestoreRun, RestoreStep))
        ensures
            (RestoreMove { run: r.0@, step: r.1@ }) == restore_next(self@.workspace, run@),
    {
        proof {
            assert(run@.files.len() == run.files@.len());
            assert(run@.snapshots.len() == run.snapshots@.len());
        }
        let mut run = run;
        if run.files.len() >= run.snapshots.len() {
            let report = RestoreReport {
                record_id: run.record_id.clone(),
                files: copy_restored_files(&run.files),
            };
            run.phase = RestorePhase::Over;
            return (run, RestoreStep::Done { report });
        }
        let k: usize = run.files.len();
        match self.absolute_for_relative(run.snapshots[k].path.as_str()) {
            Ok(path) => {
                run.phase = RestorePhase::Look { path: path.clone() };
                (run, RestoreStep::Inspect { path })
            },
            Err(error) => fail(run, error),
        }
    }

    fn note(&self, run: RestoreRun, action: RestoreAction) -> (r: (RestoreRun, RestoreStep))
        requires
            run.files@.len() < run.snapshots@.len(),
        ensures
            (RestoreMove { run: r.0@, step: r.1@ }) == restore_noted(
                self@.workspace,
                run@,
                action,
            ),
    {
        let mut run = run;
        let k: usize = run.files.len();
        let file = RestoredFile { path: run.snapshots[k].path.clone(), action };
        proof {
            assert(restored_file_views(run.files@.push(file)) =~= restored_file_views(
                run.files@,
            ).push(file@));
        }
        run.files.push(file);
        self.next_file(run)
    }

    fn act(&self, run: RestoreRun, path: String, action: RestoreAction) -> (r: (
        RestoreRun,
        RestoreStep,
    ))
        requires
            run.files@.len() < run.snapshots@.len(),
        ensures
            (RestoreMove { run: r.0@, step: r.1@ }) == restore_act(
                self@.workspace,
                run@,
                path@,
                action,
            ),
    {
        let mut run = run;
        let k: usize = run.files.len();
        match action {
            RestoreAction::RestorePreviousContent => {
                let content = match &run.snapshots[k].content {
                    Some(c) => c.clone(),
                    None => String::new(),
                };
                run.phase = RestorePhase::Write { path: path.clone() };
                (run, RestoreStep::WriteFile { path, content })
            },
            RestoreAction::DeleteCreatedFile => {
                run.phase = RestorePhase::Delete { path: path.clone() };
                (run, RestoreStep::DeleteFile { path })
            },
            _ => self.note(run, action),
        }
    }

    /// Starts going back to a list of snapshots.
    pub fn restore_snapshots(&self, record_id: &str, snapshots: &Vec<FileSnapshot>) -> (r: (
        RestoreRun,
        RestoreStep,
    ))
        ensures
            (RestoreMove { run: r.0@, step: r.1@ }) == restore_start(
                self@.workspace,
                record_id@,
                file_snapshot_views(snapshots@),
            ),
    {
        let run = RestoreRun {
            record_id: owned(record_id),
            snapshots: copy_file_snapshots(snapshots),
            files: Vec::new(),
            phase: RestorePhase::Over,
        };
        proof {
            assert(restored_file_views(run.files@) =~= Seq::empty());
        }
        self.next_file(run)
    }

    /// Starts going back to all snapshots of a record.
    pub fn restore(&self, record: &RollbackRecord) -> (r: (RestoreRun, RestoreStep))
        ensures
            (RestoreMove { run: r.0@, step: r.1@ }) == restore_start(
                self@.workspace,
                record@.id,
                record@.before_snapshot,
            ),
    {
        self.restore_snapshots(record.id.as_str(), &record.before_snapshot)
    }

    /// Starts going back to the snapshot of one file of a record, given by its resolved path.
    pub fn restore_file(&self, record: &RollbackRecord, resolved: &str) -> (r: Result<
        (RestoreRun, RestoreStep),
        RollbackError,
    >)
        ensures
            match relative_of(self@.workspace, resolved@) {
                Err(e) => r is Err && r->Err_0@ == e,
                Ok(relative) => match find_snapshot(record@.before_snapshot, relative) {
                    None => r is Err && r->Err_0@ == (RollbackErrorView::NotInRecord {
                        path: relative,
                        record: record@.id,
                    }),
                    Some(snapshot) => r is Ok && (RestoreMove {
                        run: (r->Ok_0).0@,
                        step: (r->Ok_0).1@,
                    }) == restore_start(self@.workspace, record@.id, seq![snapshot]),
                },
            },
    {
        let relative = match self.relative_for(resolved) {
            Ok(p) => p,
            Err(e) => {
                return Err(e);
            },
        };
        let ghost all = record@.before_snapshot;
        let mut i: usize = 0;
        proof {
            assert(all.skip(0) =~= all);
        }
        while i < record.before_snapshot.len()
            invariant
                i <= record.before_snapshot@.len(),
                all == file_snapshot_views(record.before_snapshot@),
                find_snapshot(all, relative@) == find_snapshot(all.skip(i as int), relative@),
                relative_of(self@.workspace, resolved@) == Ok::<Seq<char>, RollbackErrorView>(
                    relative@,
                ),
                all == record@.before_snapshot,
            decreases record.before_snapshot.len() - i,
        {
            proof {
                assert(all.skip(i as int)[0] == record.before_snapshot@[i as int]@);
                assert(all.skip(i as int).drop_first() =~= all.skip(i + 1));
            }
            if record.before_snapshot[i].path == relative {
                let mut one: Vec<FileSnapshot> = Vec::new();
                one.push(record.before_snapshot[i].clone());
                proof {
                    assert(file_snapshot_views(one@) =~= seq![record.before_snapshot@[i as int]@]);
                }
                return Ok(self.restore_snapshots(record.id.as_str(), &one));
            }
            i += 1;
        }
        Err(RollbackError::NotInRecord { path: relative, record: record.id.clone() })
    }

    /// Goes on with the answer to the last step of going back.
    pub fn advance_restore(&self, run: RestoreRun, reply: RestoreReply) -> (r: (
        RestoreRun,
        RestoreStep,
    ))
        ensures
            (RestoreMove { run: r.0@, step: r.1@ }) == restore_reply(
                self@.workspace,
                run@,
                reply@,
            ),
    {
        proof {
            assert(run@.files.len() == run.files@.len());
            assert(run@.snapshots.len() == run.snapshots@.len());
        }
        if run.files.len() >= run.snapshots.len() {
            return fail(run, RollbackError::UnexpectedReply);
        }
        let k: usize = run.files.len();
        match (&run.phase, reply) {
            (RestorePhase::Look { path }, RestoreReply::Inspected { state }) => {
                match take_snapshot(run.snapshots[k].path.as_str(), path.as_str(), state) {
                    Ok(current) => {
                        let action = restore_action(&current, &run.snapshots[k]);
                        let path = path.clone();
                        self.act(run, path, action)
                    },
                    Err(error) => fail(run, error),
                }
            },
            (RestorePhase::Write { path }, RestoreReply::Carried) => self.note(
                run,
                RestoreAction::RestorePreviousContent,
            ),
            (RestorePhase::Delete { path }, RestoreReply::Carried) => self.note(
                run,
                RestoreAction::DeleteCreatedFile,
            ),
            (RestorePhase::Write { path }, RestoreReply::ParentFailed { reason }) => {
                let error = RollbackError::CreateDirectory {
                    path: parent_of(path.as_str()),
                    reason,
                };
                fail(run, error)
            },
            (RestorePhase::Write { path }, RestoreReply::Failed { reason }) => {
                let error = RollbackError::RestoreFailed { path: path.clone(), reason };
                fail(run, error)
            },
            (RestorePhase::Delete { path }, RestoreReply::Failed { reason }) => {
                let error = RollbackError::DeleteFailed { path: path.clone(), reason };
                fail(run, error)
            },
            _ => fail(run, RollbackError::UnexpectedReply),
        }
    }

    fn preview_file(&self, run: PreviewRun) -> (r: (PreviewRun, PreviewStep))
        ensures
            (PreviewMove { run: r.0@, step: r.1@ }) == preview_next(self@.workspace, run@),
    {
        proof {
            assert(run@.files.len() == run.files@.len());
            assert(run@.snapshots.len() == run.snapshots@.len());
        }
        let mut run = run;
        let k: usize = run.files.len();
        if k >= run.snapshots.len() {
            let preview = RollbackPreview {
                record_id: run.record_id.clone(),
                files: copy_previews(&run.files),
            };
            run.waiting = None;
            return (run, PreviewStep::Done { preview });
        }
        match self.absolute_for_relative(run.snapshots[k].path.as_str()) {
            Ok(path) => {
                run.waiting = Some(path.clone());
                (run, PreviewStep::Inspect { path })
            },
            Err(error) => preview_error(run, error),
        }
    }

    /// Starts showing what going back to a record would do.
    pub fn preview(&self, record: &RollbackRecord) -> (r: (PreviewRun, PreviewStep))
        ensures
            (PreviewMove { run: r.0@, step: r.1@ }) == preview_next(
                self@.workspace,
                PreviewRunView {
                    record_id: record@.id,
                    snapshots: record@.before_snapshot,
                    files: Seq::empty(),
                    waiting: None,
                },
            ),
    {
        let run = PreviewRun {
            record_id: record.id.clone(),
            snapshots: copy_file_snapshots(&record.before_snapshot),
            files: Vec::new(),
            waiting: None,
        };
        proof {
            assert(file_rollback_preview_views(run.files@) =~= Seq::empty());
        }
        self.preview_file(run)
    }

    /// Goes on with what stands at the path that the preview asked for.
    pub fn advance_preview(&self, run: PreviewRun, state: FileState) -> (r: (
        PreviewRun,
        PreviewStep,
    ))
        ensures
            (PreviewMove { run: r.0@, step: r.1@ }) == preview_reply(
                self@.workspace,
                run@,
                state@,
            ),
    {
        proof {
            assert(run@.files.len() == run.files@.len());
            assert(run@.snapshots.len() == run.snapshots@.len());
        }
        let k: usize = run.files.len();
        let path = match &run.waiting {
            Some(path) => path.clone(),
            None => {
                return preview_error(run, RollbackError::UnexpectedReply);
            },
        };
        if k >= run.snapshots.len() {
            return preview_error(run, RollbackError::UnexpectedReply);
        }
        match take_snapshot(run.snapshots[k].path.as_str(), path.as_str(), state) {
            Ok(current) => {
                let mut run = run;
                let target = &run.snapshots[k];
                let file = FileRollbackPreview {
                    path: target.path.clone(),
                    action: restore_action(&current, target),
                    diff: render_diff(
                        target.path.as_str(),
                        &current,
                        target,
                        "current",
                        "rollback",
                    ),
                };
                proof {
                    assert(file@ == preview_of(current@, run@.snapshots[k as int]));
                    assert(file_rollback_preview_views(run.files@.push(file))
                        =~= file_rollback_preview_views(run.files@).push(file@));
                }
                run.files.push(file);
                self.preview_file(run)
            },
            Err(error) => preview_error(run, error),
        }
    }
}

fn copy_previews(v: &Vec<FileRollbackPreview>) -> (r: Vec<FileRollbackPreview>)
    ensures
        file_rollback_preview_views(r@) == file_rollback_preview_views(v@),
{
    let mut r: Vec<FileRollbackPreview> = Vec::new();
    let mut i: usize = 0;
    let ghost all = file_rollback_preview_views(v@);
    while i < v.len()
        invariant
            i <= v@.len(),
            all == file_rollback_preview_views(v@),
            file_rollback_preview_views(r@) == all.take(i as int),
        decreases v.len() - i,
    {
        let x = FileRollbackPreview {
            path: v[i].path.clone(),
            action: v[i].action,
            diff: v[i].diff.clone(),
        };
        proof {
            assert(file_rollback_preview_views(r@.push(x)) =~= file_rollback_preview_views(r@).push(
                x@,
            ));
            assert(all.take(i + 1) =~= all.take(i as int).push(v@[i as int]@));
        }
        r.push(x);
        i += 1;
    }
    proof {
        assert(all.take(v@.len() as int) =~= all);
    }
    r
}

// ---------------------------------------------------------------------------
// Laws
// ---------------------------------------------------------------------------

/// What a preview shows of a file is what going back does to it: the same action, and a
/// difference that ends in the restored text.
pub proof fn preview_announces_the_restore(
    workspace: Seq<char>,
    preview: PreviewRunView,
    run: RestoreRunView,
    state: FileStateView,
)
    requires
        preview.snapshots == run.snapshots,
        preview.files.len() == run.files.len() < run.snapshots.len(),
        preview.waiting is Some,
        run.phase == (RestorePhaseView::Look { path: preview.waiting->0 }),
        snapshot_of(run.snapshots[run.files.len() as int].path, preview.waiting->0, state) is Ok,
    ensures
        ({
            let k = run.files.len() as int;
            let target = run.snapshots[k];
            let current = snapshot_of(target.path, preview.waiting->0, state)->Ok_0;
            let shown = preview_of(current, target);
            &&& preview_reply(workspace, preview, state) == preview_next(
                workspace,
                PreviewRunView { files: preview.files.push(shown), ..preview },
            )
            &&& restore_reply(workspace, run, RestoreReplyView::Inspected { state }) == restore_act(
                workspace,
                run,
                preview.waiting->0,
                shown.action,
            )
            &&& new_side(
                line_diff(lines(content_or_empty(current)), lines(content_or_empty(target)), 0, 0),
            ) == lines(content_or_empty(target))
        }),
{
    let target = run.snapshots[run.files.len() as int];
    let current = snapshot_of(target.path, preview.waiting->0, state)->Ok_0;
    diff_is_faithful(lines(content_or_empty(current)), lines(content_or_empty(target)));
}

/// Whether what is waited for lies in the workspace.
pub open spec fn restore_inside(workspace: Seq<char>, phase: RestorePhaseView) -> bool {
    match phase {
        RestorePhaseView::Look { path } => path_begins(path, workspace),
        RestorePhaseView::Write { path } => path_begins(path, workspace),
        RestorePhaseView::Delete { path } => path_begins(path, workspace),
        RestorePhaseView::Over => true,
    }
}

/// Going back looks at, writes and deletes nothing outside the workspace, whatever a record
/// says and whatever is answered.
pub proof fn restore_stays_in_workspace(
    workspace: Seq<char>,
    run: RestoreRunView,
    reply: RestoreReplyView,
)
    requires
        restore_inside(workspace, run.phase),
    ensures
        ({
            let m = restore_reply(workspace, run, reply);
            &&& restore_inside(workspace, m.run.phase)
            &&& match m.step {
                RestoreStepView::Inspect { path } => path_begins(path, workspace),
                RestoreStepView::WriteFile { path, content } => path_begins(path, workspace),
                RestoreStepView::DeleteFile { path } => path_begins(path, workspace),
                _ => true,
            }
        }),
        restore_inside(
            workspace,
            restore_start(workspace, run.record_id, run.snapshots).run.phase,
        ),
{
}

} // verus!
