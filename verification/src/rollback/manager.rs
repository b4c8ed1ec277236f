//! Running tools with a record of what they change.
use vstd::prelude::*;
use crate::clock::unix_millis;
use crate::context::{AgentContext, AgentContextView};
use crate::path::{
    absolute, is_absolute, is_plain_name, join, joined_path, normalize_path, normalized,
    path_begins, path_starts_with, relative_path, strip_base,
};
use crate::path_laws::{joined_name_is_below, relative_and_absolute_are_inverse};
use crate::rollback::record::{
    all_diffs, changed_file_views, changed_files, changes, is_oldest_first, is_safe_id,
    is_safe_record_id, make_record_id, opt_rollback_record, record_diffs, record_id,
    rollback_record_summary_views, sort_records, RecordedToolOutput, RecordedToolOutputView,
    RollbackRecord, RollbackRecordSummary, RollbackRecordView,
};
use crate::rollback::snapshot::{
    file_snapshot_views, snapshot_of, take_snapshot, FileSnapshot, FileSnapshotView, RollbackError,
    RollbackErrorView,
};
use crate::store::{is_safe_char, safe_segment, sanitize_path_segment, STATE_DIR};
use crate::text::{opt_view, owned, to_chars, views};
use crate::tools::registry::{candidate_path, normalize_candidate};
use crate::tools::tool::{
    FileState, FileStateView, ToolOutput, ToolOutputView, ToolRequest, ToolRequestView,
};

verus! {

/// What has to be done next while a tool runs with a record.
#[derive(Debug, PartialEq, Eq)]
pub enum RunStep {
    /// Run the tool itself: answered by `ToolDone` or `Failed`.
    RunTool,
    /// Make the path canonical: answered by `Resolved`, `Missing` or `Failed`.
    Resolve { path: String },
    /// Look at a path: answered by `Inspected`.
    Inspect { path: String },
    /// Create the directory and look whether the file exists: answered by `Taken`, `Free` or
    /// `Failed`.
    CheckRecord { directory: String, file: String },
    /// Write the record: answered by `Saved`, by `Unserializable` where it has no text form, or
    /// by `Failed`.
    SaveRecord { file: String, record: RollbackRecord },
    /// The tool succeeded.
    Done { recorded: RecordedToolOutput },
    /// The tool or its record failed.
    Fail { error: RollbackError },
}

/// The value of a `RunStep`.
pub enum RunStepView {
    RunTool,
    Resolve { path: Seq<char> },
    Inspect { path: Seq<char> },
    CheckRecord { directory: Seq<char>, file: Seq<char> },
    SaveRecord { file: Seq<char>, record: RollbackRecordView },
    Done { recorded: RecordedToolOutputView },
    Fail { error: RollbackErrorView },
}

impl View for RunStep {
    type V = RunStepView;

    open spec fn view(&self) -> RunStepView {
        match self {
            RunStep::RunTool => RunStepView::RunTool,
            RunStep::Resolve { path } => RunStepView::Resolve {
                path: path@,
            },
            RunStep::Inspect { path } => RunStepView::Inspect {
                path: path@,
            },
            RunStep::CheckRecord { directory, file } => RunStepView::CheckRecord {
                directory: directory@,
                file: file@,
            },
            RunStep::SaveRecord { file, record } => RunStepView::SaveRecord {
                file: file@,
                record: record@,
            },
            RunStep::Done { recorded } => RunStepView::Done {
                recorded: recorded@,
            },
            RunStep::Fail { error } => RunStepView::Fail {
                error: error@,
            },
        }
    }
}

/// The answer to a step.
#[derive(Debug, PartialEq, Eq)]
pub enum RunReply {
    ToolDone { output: ToolOutput },
    Resolved { path: String },
    Missing,
    Inspected { state: FileState },
    Taken,
    Free,
    Saved,
    Unserializable { reason: String },
    Failed { reason: String },
}

/// The value of a `RunReply`.
pub enum RunReplyView {
    ToolDone { output: ToolOutputView },
    Resolved { path: Seq<char> },
    Missing,
    Inspected { state: FileStateView },
    Taken,
    Free,
    Saved,
    Unserializable { reason: Seq<char> },
    Failed { reason: Seq<char> },
}

impl View for RunReply {
    type V = RunReplyView;

    open spec fn view(&self) -> RunReplyView {
        match self {
            RunReply::ToolDone { output } => RunReplyView::ToolDone {
                output: output@,
            },
            RunReply::Resolved { path } => RunReplyView::Resolved {
                path: path@,
            },
            RunReply::Missing => RunReplyView::Missing,
            RunReply::Inspected { state } => RunReplyView::Inspected {
                state: state@,
            },
            RunReply::Taken => RunReplyView::Taken,
            RunReply::Free => RunReplyView::Free,
            RunReply::Saved => RunReplyView::Saved,
            RunReply::Unserializable { reason } => RunReplyView::Unserializable {
                reason: reason@,
            },
            RunReply::Failed { reason } => RunReplyView::Failed {
                reason: reason@,
            },
        }
    }
}

/// What a recorded run waits for.
#[derive(Debug, PartialEq, Eq)]
#[allow(inconsistent_fields)]
pub enum RunPhase {
    /// The report of a tool that changes nothing.
    Plain,
    /// The canonical form of the path that the tool will change.
    Target { candidate: String },
    /// What stands at that path before the tool runs.
    Before { relative: String, absolute_path: String },
    /// The report of the tool.
    Tool { before: FileSnapshot },
    /// The canonical form of the path that the tool reports.
    Reported { before: FileSnapshot, output: ToolOutput, candidate: String },
    /// What stands at the next path after the tool has run.
    After {
        before: FileSnapshot,
        output: ToolOutput,
        paths: Vec<String>,
        after: Vec<FileSnapshot>,
        absolute_path: String,
    },
    /// What stands at a path that was not looked at before.
    Fill {
        before: Vec<FileSnapshot>,
        output: ToolOutput,
        paths: Vec<String>,
        after: Vec<FileSnapshot>,
        index: usize,
        absolute_path: String,
    },
    /// Whether the id of the record is free.
    Allocate { record: RollbackRecord, output: ToolOutput, suffix: usize, file: String },
    /// That the record is written.
    Save { record: RollbackRecord, output: ToolOutput },
    /// Nothing: the run is over.
    Over,
}

/// The value of a `RunPhase`.
#[allow(inconsistent_fields)]
pub enum RunPhaseView {
    Plain,
    Target { candidate: Seq<char> },
    Before { relative: Seq<char>, absolute_path: Seq<char> },
    Tool { before: FileSnapshotView },
    Reported { before: FileSnapshotView, output: ToolOutputView, candidate: Seq<char> },
    After {
        before: FileSnapshotView,
        output: ToolOutputView,
        paths: Seq<Seq<char>>,
        after: Seq<FileSnapshotView>,
        absolute_path: Seq<char>,
    },
    Fill {
        before: Seq<FileSnapshotView>,
        output: ToolOutputView,
        paths: Seq<Seq<char>>,
        after: Seq<FileSnapshotView>,
        index: usize,
        absolute_path: Seq<char>,
    },
    Allocate { record: RollbackRecordView, output: ToolOutputView, suffix: usize, file: Seq<char> },
    Save { record: RollbackRecordView, output: ToolOutputView },
    Over,
}

impl View for RunPhase {
    type V = RunPhaseView;

    open spec fn view(&self) -> RunPhaseView {
        match self {
            RunPhase::Plain => RunPhaseView::Plain,
            RunPhase::Target { candidate } => RunPhaseView::Target {
                candidate: candidate@,
            },
            RunPhase::Before { relative, absolute_path } => RunPhaseView::Before {
                relative: relative@,
                absolute_path: absolute_path@,
            },
            RunPhase::Tool { before } => RunPhaseView::Tool {
                before: before@,
            },
            RunPhase::Reported { before, output, candidate } => RunPhaseView::Reported {
                before: before@,
                output: output@,
                candidate: candidate@,
            },
            RunPhase::After { before, output, paths, after, absolute_path } => RunPhaseView::After {
                before: before@,
                output: output@,
                paths: views(paths@),
                after: file_snapshot_views(after@),
                absolute_path: absolute_path@,
            },
            RunPhase::Fill {
                before,
                output,
                paths,
                after,
                index,
                absolute_path,
            } => RunPhaseView::Fill {
                before: file_snapshot_views(before@),
                output: output@,
                paths: views(paths@),
                after: file_snapshot_views(after@),
                index: *index,
                absolute_path: absolute_path@,
            },
            RunPhase::Allocate { record, output, suffix, file } => RunPhaseView::Allocate {
                record: record@,
                output: output@,
                suffix: *suffix,
                file: file@,
            },
            RunPhase::Save { record, output } => RunPhaseView::Save {
                record: record@,
                output: output@,
            },
            RunPhase::Over => RunPhaseView::Over,
        }
    }
}

/// A tool that runs with a record.
#[derive(Debug, PartialEq, Eq)]
pub struct RollbackRun {
    pub request: ToolRequest,
    pub phase: RunPhase,
}

/// The value of a `RollbackRun`.
pub struct RollbackRunView {
    pub request: ToolRequestView,
    pub phase: RunPhaseView,
}

impl View for RollbackRun {
    type V = RollbackRunView;

    open spec fn view(&self) -> RollbackRunView {
        RollbackRunView {
            request: self.request@,
            phase: self.phase@,
        }
    }
}

/// The rollback of one session.
#[derive(Debug)]
pub struct RollbackManager {
    context: AgentContext,
    workspace: String,
    record_dir: String,
}

/// The value of a `RollbackManager`.
pub struct RollbackManagerView {
    pub context: AgentContextView,
    pub workspace: Seq<char>,
    pub record_dir: Seq<char>,
}

impl View for RollbackManager {
    type V = RollbackManagerView;

    closed spec fn view(&self) -> RollbackManagerView {
        RollbackManagerView {
            context: self.context@,
            workspace: self.workspace@,
            record_dir: self.record_dir@,
        }
    }
}

/// The rollback of a session in a canonical workspace.
pub open spec fn manager_for(context: AgentContextView, workspace: Seq<char>) -> RollbackManagerView {
    RollbackManagerView {
        context,
        workspace,
        record_dir: joined_path(
            joined_path(
                joined_path(joined_path(workspace, STATE_DIR@), "rollback"@),
                safe_segment(context.profile),
            ),
            safe_segment(context.session_id),
        ),
    }
}

// ---------------------------------------------------------------------------
// Paths
// ---------------------------------------------------------------------------

/// The path that a user means, if it lies inside the workspace by its text.
pub open spec fn candidate_of(workspace: Seq<char>, path: Seq<char>) -> Result<
    Seq<char>,
    RollbackErrorView,
> {
    let candidate = candidate_path(workspace, path);
    if path_begins(candidate, workspace) {
        Ok(candidate)
    } else {
        Err(RollbackErrorView::OutsideWorkspace { path: candidate, root: workspace })
    }
}

/// A resolved path relative to the workspace.
pub open spec fn relative_of(workspace: Seq<char>, resolved: Seq<char>) -> Result<
    Seq<char>,
    RollbackErrorView,
> {
    if !path_begins(resolved, workspace) {
        Err(RollbackErrorView::OutsideWorkspace { path: resolved, root: workspace })
    } else if relative_path(resolved, workspace).len() == 0 {
        Err(RollbackErrorView::WorkspaceRoot)
    } else {
        Ok(normalized(relative_path(resolved, workspace)))
    }
}

/// The path in the workspace that a relative path of a record means.
pub open spec fn absolute_of(workspace: Seq<char>, relative: Seq<char>) -> Result<
    Seq<char>,
    RollbackErrorView,
> {
    let path = candidate_path(workspace, relative);
    if absolute(relative) {
        Err(RollbackErrorView::NotRelative { path: relative })
    } else if path_begins(path, workspace) {
        Ok(path)
    } else {
        Err(RollbackErrorView::OutsideWorkspace { path, root: workspace })
    }
}

/// The file of a record.
pub open spec fn record_file(record_dir: Seq<char>, id: Seq<char>) -> Result<
    Seq<char>,
    RollbackErrorView,
> {
    if is_safe_id(id) {
        Ok(joined_path(record_dir, id + ".toml"@))
    } else {
        Err(RollbackErrorView::InvalidRecordId { id })
    }
}

/// The value of a result that is a path.
pub open spec fn path_result(r: Result<String, RollbackError>) -> Result<
    Seq<char>,
    RollbackErrorView,
> {
    match r {
        Ok(p) => Ok(p@),
        Err(e) => Err(e@),
    }
}

// ---------------------------------------------------------------------------
// Running a tool with a record
// ---------------------------------------------------------------------------

/// The path that a request is about to change.
pub open spec fn mutated_path(request: ToolRequestView) -> Option<Seq<char>> {
    match request {
        ToolRequestView::Write { path, content, overwrite } => Some(path),
        ToolRequestView::Edit { path, old, new } => Some(path),
        _ => None,
    }
}

/// The path that a report says was changed.
pub open spec fn reported_path(output: ToolOutputView) -> Option<Seq<char>> {
    match output {
        ToolOutputView::Write { path, bytes, created, overwritten } => Some(path),
        ToolOutputView::Edit { path, replacements, bytes_before, bytes_after } => Some(path),
        _ => None,
    }
}

/// The name of the tool that a request is for.
pub open spec fn name_of_tool(request: ToolRequestView) -> Seq<char> {
    match request {
        ToolRequestView::Read { path, max_bytes } => "read"@,
        ToolRequestView::Write { path, content, overwrite } => "write"@,
        ToolRequestView::Edit { path, old, new } => "edit"@,
        ToolRequestView::Grep { pattern, path, max_matches } => "grep"@,
        ToolRequestView::Shell { command, timeout_ms, max_output_bytes } => "shell"@,
    }
}

/// How many ids are tried for a record.
pub const MAX_RECORD_IDS: usize = 1000;

/// The next phase and the step that it waits for.
pub struct RunMove {
    pub phase: RunPhaseView,
    pub step: RunStepView,
}

/// The move that ends a run with an error.
pub open spec fn run_fail(error: RollbackErrorView) -> RunMove {
    RunMove { phase: RunPhaseView::Over, step: RunStepView::Fail { error } }
}

/// The move that ends a run.
pub open spec fn run_done(output: ToolOutputView, record: Option<RollbackRecordView>) -> RunMove {
    RunMove {
        phase: RunPhaseView::Over,
        step: RunStepView::Done { recorded: RecordedToolOutputView { output, record } },
    }
}

/// How a run starts: a tool that changes no file just runs, for another the file is found first.
pub open spec fn run_start(m: RollbackManagerView, request: ToolRequestView) -> RunMove {
    match mutated_path(request) {
        None => RunMove { phase: RunPhaseView::Plain, step: RunStepView::RunTool },
        Some(path) => match candidate_of(m.workspace, path) {
            Ok(candidate) => RunMove {
                phase: RunPhaseView::Target { candidate },
                step: RunStepView::Resolve { path: candidate },
            },
            Err(error) => run_fail(error),
        },
    }
}

/// How a run goes on once the file to be changed is found.
pub open spec fn run_found(m: RollbackManagerView, resolved: Seq<char>) -> RunMove {
    match relative_of(m.workspace, resolved) {
        Ok(relative) => match absolute_of(m.workspace, relative) {
            Ok(absolute_path) => RunMove {
                phase: RunPhaseView::Before { relative, absolute_path },
                step: RunStepView::Inspect { path: absolute_path },
            },
            Err(error) => run_fail(error),
        },
        Err(error) => run_fail(error),
    }
}

/// How a run goes on once the tool has run: the path that it reports is found, if there is one.
pub open spec fn run_reported(
    m: RollbackManagerView,
    before: FileSnapshotView,
    output: ToolOutputView,
) -> RunMove {
    match reported_path(output) {
        Some(path) => match candidate_of(m.workspace, path) {
            Ok(candidate) => RunMove {
                phase: RunPhaseView::Reported { before, output, candidate },
                step: RunStepView::Resolve { path: candidate },
            },
            Err(error) => run_fail(error),
        },
        None => run_after(m, before, output, seq![before.path], Seq::empty()),
    }
}

/// The changed paths: the one looked at first, and the reported one where it is another.
pub open spec fn paths_of_run(before: FileSnapshotView, reported: Seq<char>) -> Seq<Seq<char>> {
    if before.path == reported {
        seq![before.path]
    } else {
        seq![before.path, reported]
    }
}

/// The move that looks at the next changed path after the tool has run.
pub open spec fn run_after(
    m: RollbackManagerView,
    before: FileSnapshotView,
    output: ToolOutputView,
    paths: Seq<Seq<char>>,
    after: Seq<FileSnapshotView>,
) -> RunMove {
    match absolute_of(m.workspace, paths[after.len() as int]) {
        Ok(absolute_path) => RunMove {
            phase: RunPhaseView::After { before, output, paths, after, absolute_path },
            step: RunStepView::Inspect { path: absolute_path },
        },
        Err(error) => run_fail(error),
    }
}

/// Whether some snapshot is of `path`.
pub open spec fn has_snapshot(snapshots: Seq<FileSnapshotView>, path: Seq<char>) -> bool {
    exists|i: int| 0 <= i < snapshots.len() && (#[trigger] snapshots[i]).path == path
}

/// The first position from `k` on whose path has no snapshot.
pub open spec fn next_missing(
    snapshots: Seq<FileSnapshotView>,
    paths: Seq<Seq<char>>,
    k: int,
) -> int
    decreases paths.len() - k,
{
    if k >= paths.len() || !has_snapshot(snapshots, paths[k]) {
        k
    } else {
        next_missing(snapshots, paths, k + 1)
    }
}

/// The move that looks at the next path that was not looked at before, or ends the run.
pub open spec fn run_fill(
    m: RollbackManagerView,
    request: ToolRequestView,
    before: Seq<FileSnapshotView>,
    output: ToolOutputView,
    paths: Seq<Seq<char>>,
    after: Seq<FileSnapshotView>,
    k: int,
    now: u64,
) -> RunMove {
    let next = next_missing(before, paths, k);
    if next < paths.len() {
        match absolute_of(m.workspace, paths[next]) {
            Ok(absolute_path) => RunMove {
                phase: RunPhaseView::Fill {
                    before,
                    output,
                    paths,
                    after,
                    index: next as usize,
                    absolute_path,
                },
                step: RunStepView::Inspect { path: absolute_path },
            },
            Err(error) => run_fail(error),
        }
    } else {
        run_finish(m, request, before, output, after, now)
    }
}

/// The record of a run, with the id that it gets where `suffix` ids are taken.
pub open spec fn record_of_run(
    m: RollbackManagerView,
    request: ToolRequestView,
    before: Seq<FileSnapshotView>,
    after: Seq<FileSnapshotView>,
    now: u64,
    suffix: usize,
) -> RollbackRecordView {
    RollbackRecordView {
        id: record_id(m.context.turn_index, now, suffix),
        session_id: m.context.session_id,
        profile: m.context.profile,
        turn_index: m.context.turn_index,
        workspace: m.workspace,
        tool_name: name_of_tool(request),
        changed_files: changes(before, after),
        before_snapshot: before,
        after_snapshot: after,
        diffs: all_diffs(before, after),
        created_at_ms: now,
    }
}

/// The move that asks whether the id of a record is free.
pub open spec fn run_allocate(
    m: RollbackManagerView,
    record: RollbackRecordView,
    output: ToolOutputView,
    suffix: usize,
) -> RunMove {
    match record_file(m.record_dir, record.id) {
        Ok(file) => RunMove {
            phase: RunPhaseView::Allocate { record, output, suffix, file },
            step: RunStepView::CheckRecord { directory: m.record_dir, file },
        },
        Err(error) => run_fail(error),
    }
}

/// How a run ends: without a record where nothing changed, else with one that needs an id.
pub open spec fn run_finish(
    m: RollbackManagerView,
    request: ToolRequestView,
    before: Seq<FileSnapshotView>,
    output: ToolOutputView,
    after: Seq<FileSnapshotView>,
    now: u64,
) -> RunMove {
    if changes(before, after).len() == 0 {
        run_done(output, None)
    } else {
        run_allocate(m, record_of_run(m, request, before, after, now, 0), output, 0)
    }
}

/// How a run goes on with a reply that comes at `now`.
pub open spec fn run_reply(
    m: RollbackManagerView,
    run: RollbackRunView,
    reply: RunReplyView,
    now: u64,
) -> RunMove {
    let unexpected = run_fail(RollbackErrorView::UnexpectedReply);
    match (run.phase, reply) {
        (RunPhaseView::Over, _) => unexpected,
        (RunPhaseView::Target { candidate }, RunReplyView::Failed { reason }) => run_fail(
            RollbackErrorView::ResolveFailed { path: candidate, reason },
        ),
        (
            RunPhaseView::Reported { before, output, candidate },
            RunReplyView::Failed { reason },
        ) => run_fail(RollbackErrorView::ResolveFailed { path: candidate, reason }),
        (
            RunPhaseView::Allocate { record, output, suffix, file },
            RunReplyView::Failed { reason },
        ) => run_fail(RollbackErrorView::RecordDirectory { path: m.record_dir, reason }),
        (RunPhaseView::Save { record, output }, RunReplyView::Failed { reason }) => run_fail(
            RollbackErrorView::SaveFailed { id: record.id, reason },
        ),
        (
            RunPhaseView::Save { record, output },
            RunReplyView::Unserializable { reason },
        ) => run_fail(RollbackErrorView::SerializeFailed { reason }),
        (_, RunReplyView::Failed { reason }) => run_fail(
            RollbackErrorView::Interrupted { reason },
        ),
        (RunPhaseView::Plain, RunReplyView::ToolDone { output }) => run_done(output, None),
        (RunPhaseView::Target { candidate }, RunReplyView::Resolved { path }) => run_found(m, path),
        (RunPhaseView::Target { candidate }, RunReplyView::Missing) => run_found(m, candidate),
        (
            RunPhaseView::Before { relative, absolute_path },
            RunReplyView::Inspected { state },
        ) => match snapshot_of(relative, absolute_path, state) {
            Ok(before) => RunMove {
                phase: RunPhaseView::Tool { before },
                step: RunStepView::RunTool,
            },
            Err(error) => run_fail(error),
        },
        (RunPhaseView::Tool { before }, RunReplyView::ToolDone { output }) => run_reported(
            m,
            before,
            output,
        ),
        (
            RunPhaseView::Reported { before, output, candidate },
            RunReplyView::Resolved { path },
        ) => match relative_of(m.workspace, path) {
            Ok(relative) => run_after(
                m,
                before,
                output,
                paths_of_run(before, relative),
                Seq::empty(),
            ),
            Err(error) => run_fail(error),
        },
        (
            RunPhaseView::Reported { before, output, candidate },
            RunReplyView::Missing,
        ) => match relative_of(m.workspace, candidate) {
            Ok(relative) => run_after(
                m,
                before,
                output,
                paths_of_run(before, relative),
                Seq::empty(),
            ),
            Err(error) => run_fail(error),
        },
        (
            RunPhaseView::After { before, output, paths, after, absolute_path },
            RunReplyView::Inspected { state },
        ) => if after.len() < paths.len() {
            match snapshot_of(paths[after.len() as int], absolute_path, state) {
                Ok(snapshot) => if after.len() + 1 < paths.len() {
                    run_after(m, before, output, paths, after.push(snapshot))
                } else {
                    run_fill(
                        m,
                        run.request,
                        seq![before],
                        output,
                        paths,
                        after.push(snapshot),
                        0,
                        now,
                    )
                },
                Err(error) => run_fail(error),
            }
        } else {
            unexpected
        },
        (
            RunPhaseView::Fill { before, output, paths, after, index, absolute_path },
            RunReplyView::Inspected { state },
        ) => if index < paths.len() {
            match snapshot_of(paths[index as int], absolute_path, state) {
                Ok(snapshot) => run_fill(
                    m,
                    run.request,
                    before.push(snapshot),
                    output,
                    paths,
                    after,
                    index + 1,
                    now,
                ),
                Err(error) => run_fail(error),
            }
        } else {
            unexpected
        },
        (
            RunPhaseView::Allocate { record, output, suffix, file },
            RunReplyView::Free,
        ) => RunMove {
            phase: RunPhaseView::Save { record, output },
            step: RunStepView::SaveRecord { file, record },
        },
        (
            RunPhaseView::Allocate { record, output, suffix, file },
            RunReplyView::Taken,
        ) => if suffix + 1 < MAX_RECORD_IDS {
            run_allocate(
                m,
                RollbackRecordView {
                    id: record_id(record.turn_index, record.created_at_ms, (suffix + 1) as usize),
                    ..record
                },
                output,
                (suffix + 1) as usize,
            )
        } else {
            run_fail(RollbackErrorView::NoRecordId)
        },
        (RunPhaseView::Save { record, output }, RunReplyView::Saved) => run_done(
            output,
            Some(record),
        ),
        _ => unexpected,
    }
}

// ---------------------------------------------------------------------------
// Executable code
// ---------------------------------------------------------------------------

/// The path that a request is about to change.
pub fn mutating_path_from_request(request: &ToolRequest) -> (r: Option<String>)
    ensures
        opt_view(r) == mutated_path(request@),
{
    match request {
        ToolRequest::Write { path, content, overwrite } => Some(path.clone()),
        ToolRequest::Edit { path, old, new } => Some(path.clone()),
        _ => None,
    }
}

/// The path that a report says was changed.
pub fn changed_path_from_output(output: &ToolOutput) -> (r: Option<String>)
    ensures
        opt_view(r) == reported_path(output@),
{
    match output {
        ToolOutput::Write { path, bytes, created, overwritten } => Some(path.clone()),
        ToolOutput::Edit { path, replacements, bytes_before, bytes_after } => Some(path.clone()),
        _ => None,
    }
}

/// The name of the tool that a request is for.
pub fn tool_name(request: &ToolRequest) -> (r: &'static str)
    ensures
        r@ == name_of_tool(request@),
{
    match request {
        ToolRequest::Read { path, max_bytes } => "read",
        ToolRequest::Write { path, content, overwrite } => "write",
        ToolRequest::Edit { path, old, new } => "edit",
        ToolRequest::Grep { pattern, path, max_matches } => "grep",
        ToolRequest::Shell { command, timeout_ms, max_output_bytes } => "shell",
    }
}

fn fail(error: RollbackError) -> (r: (RunPhase, RunStep))
    ensures
        (RunMove { phase: r.0@, step: r.1@ }) == run_fail(error@),
{
    (RunPhase::Over, RunStep::Fail { error })
}

fn done(output: ToolOutput, record: Option<RollbackRecord>) -> (r: (RunPhase, RunStep))
    ensures
        (RunMove { phase: r.0@, step: r.1@ }) == run_done(output@, opt_rollback_record(record)),
{
    (RunPhase::Over, RunStep::Done { recorded: RecordedToolOutput { output, record } })
}

/// The first position from `k` on whose path has no snapshot.
fn find_missing(snapshots: &Vec<FileSnapshot>, paths: &Vec<String>, k: usize) -> (r: usize)
    requires
        k <= paths@.len(),
    ensures
        r == next_missing(file_snapshot_views(snapshots@), views(paths@), k as int),
        k <= r <= paths@.len(),
{
    let ghost have = file_snapshot_views(snapshots@);
    let ghost all = views(paths@);
    let mut i: usize = k;
    while i < paths.len()
        invariant
            k <= i <= paths@.len(),
            have == file_snapshot_views(snapshots@),
            all == views(paths@),
            next_missing(have, all, k as int) == next_missing(have, all, i as int),
        decreases paths.len() - i,
    {
        let mut found = false;
        let mut j: usize = 0;
        while j < snapshots.len()
            invariant
                i < paths@.len(),
                j <= snapshots@.len(),
                have == file_snapshot_views(snapshots@),
                all == views(paths@),
                found == exists|m: int| 0 <= m < j && (#[trigger] have[m]).path == all[i as int],
            decreases snapshots.len() - j,
        {
            proof {
                assert(have[j as int].path == snapshots@[j as int].path@);
            }
            if snapshots[j].path == paths[i] {
                found = true;
            }
            j += 1;
        }
        if !found {
            return i;
        }
        i += 1;
    }
    i
}

impl RollbackManager {
    /// The rollback of a session, whose canonical workspace is `workspace`.
    pub fn new(context: AgentContext, workspace: &str) -> (r: Self)
        ensures
            r@ == manager_for(context@, workspace@),
    {
        let state = join(workspace, STATE_DIR);
        let all = join(state.as_str(), "rollback");
        let profile = join(all.as_str(), sanitize_path_segment(context.profile.as_str()).as_str());
        let record_dir = join(
            profile.as_str(),
            sanitize_path_segment(context.session_id.as_str()).as_str(),
        );
        RollbackManager { context, workspace: owned(workspace), record_dir }
    }

    /// The session that this is the rollback of.
    pub fn context(&self) -> (r: &AgentContext)
        ensures
            r@ == self@.context,
    {
        &self.context
    }

    /// The canonical workspace.
    pub fn workspace(&self) -> (r: &str)
        ensures
            r@ == self@.workspace,
    {
        self.workspace.as_str()
    }

    /// The directory of the records.
    pub fn record_dir(&self) -> (r: &str)
        ensures
            r@ == self@.record_dir,
    {
        self.record_dir.as_str()
    }

    /// The path that a user means, if it lies inside the workspace by its text.
    pub fn candidate_for(&self, path: &str) -> (r: Result<String, RollbackError>)
        ensures
            path_result(r) == candidate_of(self@.workspace, path@),
    {
        let candidate = normalize_candidate(self.workspace.as_str(), path);
        if path_starts_with(candidate.as_str(), self.workspace.as_str()) {
            Ok(candidate)
        } else {
            Err(
                RollbackError::OutsideWorkspace { path: candidate, root: self.workspace.clone() },
            )
        }
    }

    /// A resolved path relative to the workspace.
    pub fn relative_for(&self, resolved: &str) -> (r: Result<String, RollbackError>)
        ensures
            path_result(r) == relative_of(self@.workspace, resolved@),
    {
        if !path_starts_with(resolved, self.workspace.as_str()) {
            return Err(
                RollbackError::OutsideWorkspace {
                    path: owned(resolved),
                    root: self.workspace.clone(),
                },
            );
        }
        let relative = strip_base(resolved, self.workspace.as_str());
        if to_chars(relative.as_str()).len() == 0 {
            return Err(RollbackError::WorkspaceRoot);
        }
        Ok(normalize_path(relative.as_str()))
    }

    /// The path in the workspace that a relative path of a record means.
    pub fn absolute_for_relative(&self, relative: &str) -> (r: Result<String, RollbackError>)
        ensures
            path_result(r) == absolute_of(self@.workspace, relative@),
    {
        if is_absolute(relative) {
            return Err(RollbackError::NotRelative { path: owned(relative) });
        }
        let path = normalize_candidate(self.workspace.as_str(), relative);
        if path_starts_with(path.as_str(), self.workspace.as_str()) {
            Ok(path)
        } else {
            Err(RollbackError::OutsideWorkspace { path, root: self.workspace.clone() })
        }
    }

    /// The file of a record.
    pub fn record_path(&self, record_id: &str) -> (r: Result<String, RollbackError>)
        ensures
            path_result(r) == record_file(self@.record_dir, record_id@),
    {
        if !is_safe_record_id(record_id) {
            return Err(RollbackError::InvalidRecordId { id: owned(record_id) });
        }
        let name = owned(record_id).concat(".toml");
        Ok(join(self.record_dir.as_str(), name.as_str()))
    }

    /// The records that were found, the oldest first.
    pub fn list_records(&self, found: &Vec<RollbackRecordSummary>) -> (r: Vec<RollbackRecordSummary>)
        ensures
            is_oldest_first(
                rollback_record_summary_views(found@),
                rollback_record_summary_views(r@),
            ),
    {
        sort_records(found)
    }

    /// Starts a tool with a record of what it changes.
    pub fn run_tool(&self, request: ToolRequest) -> (r: (RollbackRun, RunStep))
        ensures
            (RunMove { phase: r.0@.phase, step: r.1@ }) == run_start(self@, request@),
            r.0@.request == request@,
    {
        let (phase, step) = match mutating_path_from_request(&request) {
            None => (RunPhase::Plain, RunStep::RunTool),
            Some(path) => match self.candidate_for(path.as_str()) {
                Ok(candidate) => (
                    RunPhase::Target { candidate: candidate.clone() },
                    RunStep::Resolve { path: candidate },
                ),
                Err(error) => fail(error),
            },
        };
        (RollbackRun { request, phase }, step)
    }

    fn after_found(&self, resolved: &str) -> (r: (RunPhase, RunStep))
        ensures
            (RunMove { phase: r.0@, step: r.1@ }) == run_found(self@, resolved@),
    {
        match self.relative_for(resolved) {
            Ok(relative) => match self.absolute_for_relative(relative.as_str()) {
                Ok(absolute_path) => (
                    RunPhase::Before { relative, absolute_path: absolute_path.clone() },
                    RunStep::Inspect { path: absolute_path },
                ),
                Err(error) => fail(error),
            },
            Err(error) => fail(error),
        }
    }

    fn look_after(
        &self,
        before: FileSnapshot,
        output: ToolOutput,
        paths: Vec<String>,
        after: Vec<FileSnapshot>,
    ) -> (r: (RunPhase, RunStep))
        requires
            after@.len() < paths@.len(),
        ensures
            (RunMove { phase: r.0@, step: r.1@ }) == run_after(
                self@,
                before@,
                output@,
                views(paths@),
                file_snapshot_views(after@),
            ),
    {
        proof {
            assert(file_snapshot_views(after@).len() == after@.len());
            assert(views(paths@)[after@.len() as int] == paths@[after@.len() as int]@);
        }
        match self.absolute_for_relative(paths[after.len()].as_str()) {
            Ok(absolute_path) => (
                RunPhase::After {
                    before,
                    output,
                    paths,
                    after,
                    absolute_path: absolute_path.clone(),
                },
                RunStep::Inspect { path: absolute_path },
            ),
            Err(error) => fail(error),
        }
    }

    fn after_reported(&self, before: FileSnapshot, output: ToolOutput, resolved: &str) -> (r: (
        RunPhase,
        RunStep,
    ))
        ensures
            (RunMove { phase: r.0@, step: r.1@ }) == (match relative_of(self@.workspace, resolved@) {
                Ok(relative) => run_after(
                    self@,
                    before@,
                    output@,
                    paths_of_run(before@, relative),
                    Seq::empty(),
                ),
                Err(error) => run_fail(error),
            }),
    {
        match self.relative_for(resolved) {
            Ok(relative) => {
                let mut paths: Vec<String> = Vec::new();
                paths.push(before.path.clone());
                if before.path != relative {
                    paths.push(relative);
                }
                let after: Vec<FileSnapshot> = Vec::new();
                proof {
                    assert(views(paths@) =~= paths_of_run(before@, relative@));
                    assert(file_snapshot_views(after@) =~= Seq::empty());
                }
                self.look_after(before, output, paths, after)
            },
            Err(error) => fail(error),
        }
    }

    fn after_tool(&self, before: FileSnapshot, output: ToolOutput) -> (r: (
        RunPhase,
        RunStep,
    ))
        ensures
            (RunMove { phase: r.0@, step: r.1@ }) == run_reported(self@, before@, output@),
    {
        match changed_path_from_output(&output) {
            Some(path) => match self.candidate_for(path.as_str()) {
                Ok(candidate) => (
                    RunPhase::Reported { before, output, candidate: candidate.clone() },
                    RunStep::Resolve { path: candidate },
                ),
                Err(error) => fail(error),
            },
            None => {
                let mut paths: Vec<String> = Vec::new();
                paths.push(before.path.clone());
                let after: Vec<FileSnapshot> = Vec::new();
                proof {
                    assert(views(paths@) =~= seq![before@.path]);
                    assert(file_snapshot_views(after@) =~= Seq::empty());
                }
                self.look_after(before, output, paths, after)
            },
        }
    }

    fn allocate(&self, record: RollbackRecord, output: ToolOutput, suffix: usize) -> (r: (
        RunPhase,
        RunStep,
    ))
        ensures
            (RunMove { phase: r.0@, step: r.1@ }) == run_allocate(
                self@,
                record@,
                output@,
                suffix,
            ),
    {
        match self.record_path(record.id.as_str()) {
            Ok(file) => (
                RunPhase::Allocate { record, output, suffix, file: file.clone() },
                RunStep::CheckRecord { directory: self.record_dir.clone(), file },
            ),
            Err(error) => fail(error),
        }
    }

    fn finish(
        &self,
        request: &ToolRequest,
        before: Vec<FileSnapshot>,
        output: ToolOutput,
        after: Vec<FileSnapshot>,
        now: u64,
    ) -> (r: (RunPhase, RunStep))
        ensures
            (RunMove { phase: r.0@, step: r.1@ }) == run_finish(
                self@,
                request@,
                file_snapshot_views(before@),
                output@,
                file_snapshot_views(after@),
                now,
            ),
    {
        let changed = changed_files(&before, &after);
        proof {
            assert(changed_file_views(changed@).len() == changed@.len());
        }
        if changed.len() == 0 {
            return done(output, None);
        }
        let diffs = record_diffs(&before, &after);
        let record = RollbackRecord {
            id: make_record_id(self.context.turn_index, now, 0),
            session_id: self.context.session_id.clone(),
            profile: self.context.profile.clone(),
            turn_index: self.context.turn_index,
            workspace: self.workspace.clone(),
            tool_name: owned(tool_name(request)),
            changed_files: changed,
            before_snapshot: before,
            after_snapshot: after,
            diffs,
            created_at_ms: now,
        };
        self.allocate(record, output, 0)
    }

    fn fill(
        &self,
        request: &ToolRequest,
        before: Vec<FileSnapshot>,
        output: ToolOutput,
        paths: Vec<String>,
        after: Vec<FileSnapshot>,
        k: usize,
        now: u64,
    ) -> (r: (RunPhase, RunStep))
        requires
            k <= paths@.len(),
        ensures
            (RunMove { phase: r.0@, step: r.1@ }) == run_fill(
                self@,
                request@,
                file_snapshot_views(before@),
                output@,
                views(paths@),
                file_snapshot_views(after@),
                k as int,
                now,
            ),
    {
        let next: usize = find_missing(&before, &paths, k);
        proof {
            assert(views(paths@).len() == paths@.len());
        }
        if next < paths.len() {
            match self.absolute_for_relative(paths[next].as_str()) {
                Ok(absolute_path) => (
                    RunPhase::Fill {
                        before,
                        output,
                        paths,
                        after,
                        index: next,
                        absolute_path: absolute_path.clone(),
                    },
                    RunStep::Inspect { path: absolute_path },
                ),
                Err(error) => fail(error),
            }
        } else {
            self.finish(request, before, output, after, now)
        }
    }

    fn next(&self, request: &ToolRequest, phase: RunPhase, reply: RunReply, now: u64) -> (r: (
        RunPhase,
        RunStep,
    ))
        ensures
            (RunMove { phase: r.0@, step: r.1@ }) == run_reply(
                self@,
                RollbackRunView { request: request@, phase: phase@ },
                reply@,
                now,
            ),
    {
        match phase {
            RunPhase::Over => fail(RollbackError::UnexpectedReply),
            RunPhase::Plain => match reply {
                RunReply::ToolDone { output } => done(output, None),
                RunReply::Failed { reason } => fail(RollbackError::Interrupted { reason }),
                _ => fail(RollbackError::UnexpectedReply),
            },
            RunPhase::Target { candidate } => match reply {
                RunReply::Resolved { path } => self.after_found(path.as_str()),
                RunReply::Missing => self.after_found(candidate.as_str()),
                RunReply::Failed { reason } => fail(
                    RollbackError::ResolveFailed { path: candidate, reason },
                ),
                _ => fail(RollbackError::UnexpectedReply),
            },
            RunPhase::Before { relative, absolute_path } => match reply {
                RunReply::Inspected { state } => match take_snapshot(
                    relative.as_str(),
                    absolute_path.as_str(),
                    state,
                ) {
                    Ok(before) => (RunPhase::Tool { before }, RunStep::RunTool),
                    Err(error) => fail(error),
                },
                RunReply::Failed { reason } => fail(RollbackError::Interrupted { reason }),
                _ => fail(RollbackError::UnexpectedReply),
            },
            RunPhase::Tool { before } => match reply {
                RunReply::ToolDone { output } => self.after_tool(before, output),
                RunReply::Failed { reason } => fail(RollbackError::Interrupted { reason }),
                _ => fail(RollbackError::UnexpectedReply),
            },
            RunPhase::Reported { before, output, candidate } => match reply {
                RunReply::Resolved { path } => self.after_reported(before, output, path.as_str()),
                RunReply::Missing => self.after_reported(before, output, candidate.as_str()),
                RunReply::Failed { reason } => fail(
                    RollbackError::ResolveFailed { path: candidate, reason },
                ),
                _ => fail(RollbackError::UnexpectedReply),
            },
            RunPhase::After { before, output, paths, after, absolute_path } => match reply {
                RunReply::Inspected { state } => {
                    proof {
                        assert(views(paths@).len() == paths@.len());
                        assert(file_snapshot_views(after@).len() == after@.len());
                    }
                    if after.len() >= paths.len() {
                        return fail(RollbackError::UnexpectedReply);
                    }
                    match take_snapshot(paths[after.len()].as_str(), absolute_path.as_str(), state) {
                        Ok(snapshot) => {
                            let mut after = after;
                            proof {
                                assert(file_snapshot_views(after@.push(snapshot))
                                    =~= file_snapshot_views(after@).push(snapshot@));
                            }
                            after.push(snapshot);
                            if after.len() < paths.len() {
                                self.look_after(before, output, paths, after)
                            } else {
                                let mut all: Vec<FileSnapshot> = Vec::new();
                                all.push(before);
                                proof {
                                    assert(file_snapshot_views(all@) =~= seq![before@]);
                                }
                                self.fill(request, all, output, paths, after, 0, now)
                            }
                        },
                        Err(error) => fail(error),
                    }
                },
                RunReply::Failed { reason } => fail(RollbackError::Interrupted { reason }),
                _ => fail(RollbackError::UnexpectedReply),
            },
            RunPhase::Fill { before, output, paths, after, index, absolute_path } => match reply {
                RunReply::Inspected { state } => {
                    proof {
                        assert(views(paths@).len() == paths@.len());
                    }
                    if index >= paths.len() {
                        return fail(RollbackError::UnexpectedReply);
                    }
                    match take_snapshot(paths[index].as_str(), absolute_path.as_str(), state) {
                        Ok(snapshot) => {
                            let mut before = before;
                            proof {
                                assert(file_snapshot_views(before@.push(snapshot))
                                    =~= file_snapshot_views(before@).push(snapshot@));
                            }
                            before.push(snapshot);
                            self.fill(request, before, output, paths, after, index + 1, now)
                        },
                        Err(error) => fail(error),
                    }
                },
                RunReply::Failed { reason } => fail(RollbackError::Interrupted { reason }),
                _ => fail(RollbackError::UnexpectedReply),
            },
            RunPhase::Allocate { record, output, suffix, file } => match reply {
                RunReply::Free => (
                    RunPhase::Save { record: record.clone(), output },
                    RunStep::SaveRecord { file, record },
                ),
                RunReply::Taken => {
                    if suffix < MAX_RECORD_IDS - 1 {
                        let mut record = record;
                        record.id = make_record_id(
                            record.turn_index,
                            record.created_at_ms,
                            suffix + 1,
                        );
                        self.allocate(record, output, suffix + 1)
                    } else {
                        fail(RollbackError::NoRecordId)
                    }
                },
                RunReply::Failed { reason } => fail(
                    RollbackError::RecordDirectory { path: self.record_dir.clone(), reason },
                ),
                _ => fail(RollbackError::UnexpectedReply),
            },
            RunPhase::Save { record, output } => match reply {
                RunReply::Saved => done(output, Some(record)),
                RunReply::Failed { reason } => fail(
                    RollbackError::SaveFailed { id: record.id, reason },
                ),
                RunReply::Unserializable { reason } => fail(
                    RollbackError::SerializeFailed { reason },
                ),
                _ => fail(RollbackError::UnexpectedReply),
            },
        }
    }

    /// Goes on with the answer to the last step, which came at `now`, and says what has to
    /// be done next.
    pub fn advance_at(&self, run: RollbackRun, reply: RunReply, now: u64) -> (r: (
        RollbackRun,
        RunStep,
    ))
        ensures
            (RunMove { phase: r.0@.phase, step: r.1@ }) == run_reply(self@, run@, reply@, now),
            r.0@.request == run@.request,
    {
        let RollbackRun { request, phase } = run;
        let (phase, step) = self.next(&request, phase, reply, now);
        (RollbackRun { request, phase }, step)
    }

    /// Goes on with the answer to the last step, and says what has to be done next.
    pub fn advance(&self, run: RollbackRun, reply: RunReply) -> (r: (RollbackRun, RunStep))
        ensures
            exists|now: u64|
                (RunMove { phase: r.0@.phase, step: r.1@ }) == #[trigger] run_reply(
                    self@,
                    run@,
                    reply@,
                    now,
                ),
            r.0@.request == run@.request,
    {
        self.advance_at(run, reply, unix_millis())
    }
}

/// Starts a tool with a record of what it changes, for a session with the canonical
/// workspace `workspace`.
pub fn run_tool_with_rollback(
    context: &AgentContext,
    workspace: &str,
    request: ToolRequest,
) -> (r: (RollbackManager, RollbackRun, RunStep))
    ensures
        r.0@ == manager_for(context@, workspace@),
        (RunMove { phase: r.1@.phase, step: r.2@ }) == run_start(
            manager_for(context@, workspace@),
            request@,
        ),
        r.1@.request == request@,
{
    let manager = RollbackManager::new(context.clone(), workspace);
    let (run, step) = manager.run_tool(request);
    (manager, run, step)
}

// ---------------------------------------------------------------------------
// Laws
// ---------------------------------------------------------------------------

/// A path of the workspace is found again through its relative form: what a record says
/// of a file is said of that file.
pub proof fn record_paths_lead_back(workspace: Seq<char>, p: Seq<char>)
    requires
        absolute(workspace),
        absolute(p),
        normalized(workspace) == workspace,
        normalized(p) == p,
        path_begins(p, workspace),
        p != workspace,
    ensures
        relative_of(workspace, p) is Ok,
        absolute_of(workspace, relative_of(workspace, p)->Ok_0) == Ok::<
            Seq<char>,
            RollbackErrorView,
        >(p),
{
    relative_and_absolute_are_inverse(workspace, p);
}

/// Tools that change no file run without a record.
pub proof fn reading_leaves_no_record(
    m: RollbackManagerView,
    request: ToolRequestView,
    output: ToolOutputView,
    now: u64,
)
    requires
        request is Read || request is Grep || request is Shell,
    ensures
        run_start(m, request) == (RunMove {
            phase: RunPhaseView::Plain,
            step: RunStepView::RunTool,
        }),
        run_reply(
            m,
            RollbackRunView { request, phase: RunPhaseView::Plain },
            RunReplyView::ToolDone { output },
            now,
        ) == run_done(output, None),
{
}

/// A tool that changes a file runs only after a snapshot of it was taken, and the record
/// that is made of the run goes back to exactly that snapshot.
pub proof fn record_goes_back_to_before(
    m: RollbackManagerView,
    request: ToolRequestView,
    relative: Seq<char>,
    absolute_path: Seq<char>,
    before: FileStateView,
    output: ToolOutputView,
    after: FileStateView,
    now: u64,
)
    requires
        snapshot_of(relative, absolute_path, before) is Ok,
        snapshot_of(relative, absolute_path, after) is Ok,
        normalized(relative) == relative,
        before != after,
    ensures
        ({
            let was = snapshot_of(relative, absolute_path, before)->Ok_0;
            let is = snapshot_of(relative, absolute_path, after)->Ok_0;
            &&& run_reply(
                m,
                RollbackRunView {
                    request,
                    phase: RunPhaseView::Before { relative, absolute_path },
                },
                RunReplyView::Inspected { state: before },
                now,
            ) == (RunMove { phase: RunPhaseView::Tool { before: was }, step: RunStepView::RunTool })
            &&& run_reply(
                m,
                RollbackRunView {
                    request,
                    phase: RunPhaseView::After {
                        before: was,
                        output,
                        paths: seq![relative],
                        after: Seq::empty(),
                        absolute_path,
                    },
                },
                RunReplyView::Inspected { state: after },
                now,
            ) == run_allocate(
                m,
                record_of_run(m, request, seq![was], seq![is], now, 0),
                output,
                0,
            )
            &&& record_of_run(m, request, seq![was], seq![is], now, 0).before_snapshot == seq![was]
        }),
{
    let was = snapshot_of(relative, absolute_path, before)->Ok_0;
    let is = snapshot_of(relative, absolute_path, after)->Ok_0;
    assert(Seq::<FileSnapshotView>::empty().push(is) =~= seq![is]);
    assert(has_snapshot(seq![was], relative)) by {
        assert(seq![was][0].path == relative);
    }
    assert(next_missing(seq![was], seq![relative], 0) == 1) by {
        assert(next_missing(seq![was], seq![relative], 1) == 1);
    }
    let rest = changes(seq![was].drop_first(), seq![is].drop_first());
    assert(seq![was].drop_first() =~= Seq::<FileSnapshotView>::empty());
    assert(changes(seq![was], seq![is]).len() > 0);
}

/// Every path that is looked at for a record lies in the workspace, whatever is answered.
pub proof fn recording_stays_in_workspace(
    m: RollbackManagerView,
    run: RollbackRunView,
    reply: RunReplyView,
    now: u64,
)
    ensures
        match run_start(m, run.request).step {
            RunStepView::Resolve { path } => path_begins(path, m.workspace),
            RunStepView::Inspect { path } => path_begins(path, m.workspace),
            _ => true,
        },
        match run_reply(m, run, reply, now).step {
            RunStepView::Resolve { path } => path_begins(path, m.workspace),
            RunStepView::Inspect { path } => path_begins(path, m.workspace),
            _ => true,
        },
{
}

/// The file of every record lies in the record directory.
pub proof fn record_files_stay_in_directory(record_dir: Seq<char>, id: Seq<char>)
    requires
        record_file(record_dir, id) is Ok,
    ensures
        path_begins(record_file(record_dir, id)->Ok_0, record_dir),
{
    reveal_strlit(".toml");
    let name = id + ".toml"@;
    assert(name.len() > 5);
    assert(is_plain_name(name)) by {
        assert forall|i: int| 0 <= i < name.len() implies #[trigger] name[i] != '/' by {
            if i < id.len() {
                assert(is_safe_char(id[i]));
                assert(name[i] == id[i]);
            }
        }
    }
    joined_name_is_below(record_dir, name);
}

} // verus!
