//! Running a tool: what has to be done on disk, step by step.
use vstd::prelude::*;
use crate::context::AgentContext;
use crate::path::{
    absolute, ancestor_paths, ancestors, components, directory_of, is_absolute, join, joined_path,
    normalize_path, normalized, parent_of, path_begins, path_starts_with, relative_path, segments,
    split_segments,
};
use crate::measure::utf8_lossy;
use crate::text::{copy_strings, opt_view, same, to_chars, trim, trimmed, views};
use crate::tools::edit::{edit_result, EditTool};
use crate::tools::grep::{
    add_limited, file_matches, limited_search_composes, regex_refusal, GrepTool, Pattern,
};
use crate::tools::read::{read_result, ReadTool};
use crate::tools::shell::{shell_result, shell_timeout, timeout_or_default, ShellTool};
use crate::tools::tool::{
    grep_match_views, FileState, FileStateView, GrepMatch, GrepMatchView, ToolError, ToolErrorView,
    ToolOutput, ToolOutputView, ToolRequest, ToolRequestView,
};
use crate::tools::write::{write_result, WriteTool};

verus! {

/// What has to be done next for a tool.
#[derive(Debug, PartialEq, Eq)]
pub enum ToolStep {
    /// Make the path canonical: answered by `Resolved` or `Failed`.
    Resolve { path: String },
    /// Find the first of the candidates that exists: answered by `Found` or `NotFound`.
    FindExisting { candidates: Vec<String> },
    /// Look at a path: answered by `Inspected`.
    Inspect { path: String },
    /// Write a file, with the directories above it where `create_parent` is set: answered by
    /// `Written`, by `ParentFailed` where the directories cannot be made, or by `Failed`.
    WriteFile { path: String, content: String, create_parent: bool },
    /// Read the next file below `target`, or `target` where it is a file: answered by
    /// `FileRead`, by `NoMoreFiles` once all were read, or by `Failed`.
    NextFile { target: String },
    /// Run a command: answered by `Executed`, by `Failed` where it does not start, by
    /// `WaitFailed` where it cannot be watched, or by `CollectFailed` where its output is lost.
    Execute { directory: String, command: String, timeout_ms: u64 },
    /// The tool succeeded.
    Done { output: ToolOutput },
    /// The tool failed.
    Fail { error: ToolError },
}

/// The value of a `ToolStep`.
pub enum ToolStepView {
    Resolve { path: Seq<char> },
    FindExisting { candidates: Seq<Seq<char>> },
    Inspect { path: Seq<char> },
    WriteFile { path: Seq<char>, content: Seq<char>, create_parent: bool },
    NextFile { target: Seq<char> },
    Execute { directory: Seq<char>, command: Seq<char>, timeout_ms: u64 },
    Done { output: ToolOutputView },
    Fail { error: ToolErrorView },
}

impl View for ToolStep {
    type V = ToolStepView;

    open spec fn view(&self) -> ToolStepView {
        match self {
            ToolStep::Resolve { path } => ToolStepView::Resolve {
                path: path@,
            },
            ToolStep::FindExisting { candidates } => ToolStepView::FindExisting {
                candidates: views(candidates@),
            },
            ToolStep::Inspect { path } => ToolStepView::Inspect {
                path: path@,
            },
            ToolStep::WriteFile { path, content, create_parent } => ToolStepView::WriteFile {
                path: path@,
                content: content@,
                create_parent: *create_parent,
            },
            ToolStep::NextFile { target } => ToolStepView::NextFile {
                target: target@,
            },
            ToolStep::Execute { directory, command, timeout_ms } => ToolStepView::Execute {
                directory: directory@,
                command: command@,
                timeout_ms: *timeout_ms,
            },
            ToolStep::Done { output } => ToolStepView::Done {
                output: output@,
            },
            ToolStep::Fail { error } => ToolStepView::Fail {
                error: error@,
            },
        }
    }
}

/// The answer to a step.
#[derive(Debug, PartialEq, Eq)]
pub enum ToolReply {
    Resolved { path: String },
    Found { index: usize },
    NotFound,
    Inspected { state: FileState },
    Written,
    /// A file and its content, none where it cannot be read as text.
    FileRead { path: String, content: Option<String> },
    NoMoreFiles,
    /// How a command ended, with the bytes that it printed.
    Executed { status_code: Option<i32>, stdout: Vec<u8>, stderr: Vec<u8>, timed_out: bool },
    ParentFailed { reason: String },
    WaitFailed { reason: String },
    CollectFailed { reason: String },
    Failed { reason: String },
}

/// The value of a `ToolReply`.
pub enum ToolReplyView {
    Resolved { path: Seq<char> },
    Found { index: usize },
    NotFound,
    Inspected { state: FileStateView },
    Written,
    FileRead { path: Seq<char>, content: Option<Seq<char>> },
    NoMoreFiles,
    Executed { status_code: Option<i32>, stdout: Seq<u8>, stderr: Seq<u8>, timed_out: bool },
    ParentFailed { reason: Seq<char> },
    WaitFailed { reason: Seq<char> },
    CollectFailed { reason: Seq<char> },
    Failed { reason: Seq<char> },
}

impl View for ToolReply {
    type V = ToolReplyView;

    open spec fn view(&self) -> ToolReplyView {
        match self {
            ToolReply::Resolved { path } => ToolReplyView::Resolved {
                path: path@,
            },
            ToolReply::Found { index } => ToolReplyView::Found {
                index: *index,
            },
            ToolReply::NotFound => ToolReplyView::NotFound,
            ToolReply::Inspected { state } => ToolReplyView::Inspected {
                state: state@,
            },
            ToolReply::Written => ToolReplyView::Written,
            ToolReply::FileRead { path, content } => ToolReplyView::FileRead {
                path: path@,
                content: opt_view(*content),
            },
            ToolReply::NoMoreFiles => ToolReplyView::NoMoreFiles,
            ToolReply::Executed {
                status_code,
                stdout,
                stderr,
                timed_out,
            } => ToolReplyView::Executed {
                status_code: *status_code,
                stdout: stdout@,
                stderr: stderr@,
                timed_out: *timed_out,
            },
            ToolReply::ParentFailed { reason } => ToolReplyView::ParentFailed {
                reason: reason@,
            },
            ToolReply::WaitFailed { reason } => ToolReplyView::WaitFailed {
                reason: reason@,
            },
            ToolReply::CollectFailed { reason } => ToolReplyView::CollectFailed {
                reason: reason@,
            },
            ToolReply::Failed { reason } => ToolReplyView::Failed {
                reason: reason@,
            },
        }
    }
}

/// What a tool waits for.
#[derive(Debug, PartialEq, Eq)]
pub enum ToolPhase {
    /// The canonical workspace.
    Root,
    /// The canonical form of `candidate`.
    Target { root: String, candidate: String },
    /// Which of the directories above `candidate` exists.
    Ancestor { root: String, candidate: String, candidates: Vec<String> },
    /// The canonical form of the existing directory above `candidate`.
    Parent { root: String, candidate: String, ancestor: String },
    /// What stands at `path`.
    File { path: String },
    /// That `path` is written.
    Writing { path: String, output: ToolOutput },
    /// A file below `target`, with the matches in the files before it.
    Searching { root: String, target: String, matches: Vec<GrepMatch> },
    /// How a command ended.
    Executing,
    /// Nothing: the tool is done.
    Over,
}

/// The value of a `ToolPhase`.
pub enum ToolPhaseView {
    Root,
    Target { root: Seq<char>, candidate: Seq<char> },
    Ancestor { root: Seq<char>, candidate: Seq<char>, candidates: Seq<Seq<char>> },
    Parent { root: Seq<char>, candidate: Seq<char>, ancestor: Seq<char> },
    File { path: Seq<char> },
    Writing { path: Seq<char>, output: ToolOutputView },
    Searching { root: Seq<char>, target: Seq<char>, matches: Seq<GrepMatchView> },
    Executing,
    Over,
}

impl View for ToolPhase {
    type V = ToolPhaseView;

    open spec fn view(&self) -> ToolPhaseView {
        match self {
            ToolPhase::Root => ToolPhaseView::Root,
            ToolPhase::Target { root, candidate } => ToolPhaseView::Target {
                root: root@,
                candidate: candidate@,
            },
            ToolPhase::Ancestor { root, candidate, candidates } => ToolPhaseView::Ancestor {
                root: root@,
                candidate: candidate@,
                candidates: views(candidates@),
            },
            ToolPhase::Parent { root, candidate, ancestor } => ToolPhaseView::Parent {
                root: root@,
                candidate: candidate@,
                ancestor: ancestor@,
            },
            ToolPhase::File { path } => ToolPhaseView::File {
                path: path@,
            },
            ToolPhase::Writing { path, output } => ToolPhaseView::Writing {
                path: path@,
                output: output@,
            },
            ToolPhase::Searching { root, target, matches } => ToolPhaseView::Searching {
                root: root@,
                target: target@,
                matches: grep_match_views(matches@),
            },
            ToolPhase::Executing => ToolPhaseView::Executing,
            ToolPhase::Over => ToolPhaseView::Over,
        }
    }
}

/// A tool at work: the workspace, what it is asked, the compiled pattern of a search, and
/// what it waits for.
#[derive(Debug)]
pub struct ToolRun {
    pub workspace: String,
    pub request: ToolRequest,
    pub pattern: Option<Pattern>,
    pub phase: ToolPhase,
}

/// The value of a `ToolRun`.
pub struct ToolRunView {
    pub workspace: Seq<char>,
    pub request: ToolRequestView,
    /// The pattern that is compiled, if one is.
    pub pattern: Option<Seq<char>>,
    pub phase: ToolPhaseView,
}

impl View for ToolRun {
    type V = ToolRunView;

    open spec fn view(&self) -> ToolRunView {
        ToolRunView {
            workspace: self.workspace@,
            request: self.request@,
            pattern: pattern_view(self.pattern),
            phase: self.phase@,
        }
    }
}

/// The value of an optional pattern.
pub open spec fn pattern_view(pattern: Option<Pattern>) -> Option<Seq<char>> {
    match pattern {
        Some(p) => Some(p@),
        None => None,
    }
}

/// The path that a request means: relative paths start at the workspace.
pub open spec fn candidate_path(root: Seq<char>, path: Seq<char>) -> Seq<char> {
    normalized(joined_path(root, path))
}

/// The next phase and the step that it waits for.
pub struct ToolMove {
    pub phase: ToolPhaseView,
    pub step: ToolStepView,
}

/// The move that ends a tool with an error.
pub open spec fn fail_move(error: ToolErrorView) -> ToolMove {
    ToolMove { phase: ToolPhaseView::Over, step: ToolStepView::Fail { error } }
}

/// The move that ends a tool with a report.
pub open spec fn done_move(output: ToolOutputView) -> ToolMove {
    ToolMove { phase: ToolPhaseView::Over, step: ToolStepView::Done { output } }
}

/// How a tool starts: requests that cannot work fail, for the others the workspace is resolved.
/// `refusal` is the reason why the pattern of a search is refused, if it is.
pub open spec fn start_move(
    workspace: Seq<char>,
    request: ToolRequestView,
    refusal: Option<Seq<char>>,
) -> ToolMove {
    let resolve = ToolMove {
        phase: ToolPhaseView::Root,
        step: ToolStepView::Resolve { path: workspace },
    };
    match request {
        ToolRequestView::Edit { path, old, new } => if old.len() == 0 {
            fail_move(ToolErrorView::EmptyOldText)
        } else {
            resolve
        },
        ToolRequestView::Grep { pattern, path, max_matches } => match refusal {
            Some(reason) => fail_move(ToolErrorView::InvalidRegex { pattern, reason }),
            None => resolve,
        },
        ToolRequestView::Shell { command, timeout_ms, max_output_bytes } => if trimmed(
            command,
        ).len() == 0 {
            fail_move(ToolErrorView::EmptyCommand)
        } else {
            resolve
        },
        _ => resolve,
    }
}

/// The move that looks for `path` below the root.
pub open spec fn target_move(root: Seq<char>, path: Seq<char>) -> ToolMove {
    let candidate = candidate_path(root, path);
    ToolMove {
        phase: ToolPhaseView::Target { root, candidate },
        step: ToolStepView::Resolve { path: candidate },
    }
}

/// The move that searches below `target`; where no match is wanted, there is nothing to search.
pub open spec fn search_move(
    root: Seq<char>,
    target: Seq<char>,
    max_matches: Option<usize>,
) -> ToolMove {
    if max_matches == Some(0usize) {
        done_move(ToolOutputView::Grep { matches: Seq::empty(), truncated: true })
    } else {
        ToolMove {
            phase: ToolPhaseView::Searching { root, target, matches: Seq::empty() },
            step: ToolStepView::NextFile { target },
        }
    }
}

/// How a search goes on with the matches in one more file: it ends where they reach the limit.
pub open spec fn found_move(
    root: Seq<char>,
    target: Seq<char>,
    matches: Seq<GrepMatchView>,
    found: Seq<GrepMatchView>,
    max_matches: Option<usize>,
) -> ToolMove {
    let (all, reached) = add_limited(matches, found, max_matches);
    if reached {
        done_move(ToolOutputView::Grep { matches: all, truncated: true })
    } else {
        ToolMove {
            phase: ToolPhaseView::Searching { root, target, matches: all },
            step: ToolStepView::NextFile { target },
        }
    }
}

/// The matches of a pattern in a file below the workspace; one that cannot be read has none.
pub open spec fn found_in(
    root: Seq<char>,
    path: Seq<char>,
    content: Option<Seq<char>>,
    pattern: Seq<char>,
) -> Seq<GrepMatchView> {
    match content {
        Some(text) => file_matches(relative_path(path, root), text, pattern),
        None => Seq::empty(),
    }
}

/// The move that looks at a path.
pub open spec fn inspect_move(path: Seq<char>) -> ToolMove {
    ToolMove { phase: ToolPhaseView::File { path }, step: ToolStepView::Inspect { path } }
}

/// The directories above a normalized path, nearest first.
pub open spec fn directories_above(candidate: Seq<char>) -> Seq<Seq<char>> {
    ancestor_paths(absolute(candidate), segments(candidate).drop_last())
}

/// How a write goes on once the workspace is known: the path must lie inside it by its
/// text alone, and then the nearest existing directory above it is looked for.
pub open spec fn write_target_move(root: Seq<char>, path: Seq<char>) -> ToolMove {
    let candidate = candidate_path(root, path);
    if !path_begins(candidate, root) {
        fail_move(ToolErrorView::OutsideWorkspace { path: candidate, root })
    } else if segments(candidate).len() == 0 {
        fail_move(ToolErrorView::NoParent { path: candidate })
    } else {
        ToolMove {
            phase: ToolPhaseView::Ancestor {
                root,
                candidate,
                candidates: directories_above(candidate),
            },
            step: ToolStepView::FindExisting { candidates: directories_above(candidate) },
        }
    }
}

/// How a tool goes on once the workspace is known.
pub open spec fn root_move(root: Seq<char>, request: ToolRequestView) -> ToolMove {
    match request {
        ToolRequestView::Read { path, max_bytes } => target_move(root, path),
        ToolRequestView::Edit { path, old, new } => target_move(root, path),
        ToolRequestView::Write { path, content, overwrite } => write_target_move(root, path),
        ToolRequestView::Grep { pattern, path, max_matches } => match path {
            Some(p) => target_move(root, p),
            None => search_move(root, root, max_matches),
        },
        ToolRequestView::Shell { command, timeout_ms, max_output_bytes } => ToolMove {
            phase: ToolPhaseView::Executing,
            step: ToolStepView::Execute {
                directory: root,
                command,
                timeout_ms: shell_timeout(timeout_ms),
            },
        },
    }
}

/// How a tool goes on once the canonical form of its path is known.
pub open spec fn resolved_move(
    root: Seq<char>,
    resolved: Seq<char>,
    request: ToolRequestView,
) -> ToolMove {
    if !path_begins(resolved, root) {
        fail_move(ToolErrorView::OutsideWorkspace { path: resolved, root })
    } else {
        match request {
            ToolRequestView::Grep { pattern, path, max_matches } => search_move(
                root,
                resolved,
                max_matches,
            ),
            _ => inspect_move(resolved),
        }
    }
}

/// How a tool goes on once it is known what stands at its path.
pub open spec fn file_move(
    path: Seq<char>,
    state: FileStateView,
    request: ToolRequestView,
) -> ToolMove {
    match request {
        ToolRequestView::Read { path: _, max_bytes } => match read_result(path, state, max_bytes) {
            Ok(output) => done_move(output),
            Err(error) => fail_move(error),
        },
        ToolRequestView::Write { path: _, content, overwrite } => match write_result(
            path,
            state,
            content,
            overwrite,
        ) {
            Ok(output) => ToolMove {
                phase: ToolPhaseView::Writing { path, output },
                step: ToolStepView::WriteFile { path, content, create_parent: true },
            },
            Err(error) => fail_move(error),
        },
        ToolRequestView::Edit { path: _, old, new } => match edit_result(path, state, old, new) {
            Ok((content, output)) => ToolMove {
                phase: ToolPhaseView::Writing { path, output },
                step: ToolStepView::WriteFile { path, content, create_parent: false },
            },
            Err(error) => fail_move(error),
        },
        _ => fail_move(ToolErrorView::UnexpectedReply),
    }
}

/// The error of a file that could not be written.
pub open spec fn write_failure(
    path: Seq<char>,
    reason: Seq<char>,
    request: ToolRequestView,
) -> ToolErrorView {
    match request {
        ToolRequestView::Edit { path: _, old, new } => ToolErrorView::EditFailed { path, reason },
        _ => ToolErrorView::WriteFailed { path, reason },
    }
}

/// How a tool goes on with a reply.
pub open spec fn reply_move(run: ToolRunView, reply: ToolReplyView) -> ToolMove {
    let unexpected = fail_move(ToolErrorView::UnexpectedReply);
    match run.phase {
        ToolPhaseView::Root => match reply {
            ToolReplyView::Resolved { path } => root_move(path, run.request),
            ToolReplyView::Failed { reason } => fail_move(
                ToolErrorView::ResolveWorkspace { path: run.workspace, reason },
            ),
            _ => unexpected,
        },
        ToolPhaseView::Target { root, candidate } => match reply {
            ToolReplyView::Resolved { path } => resolved_move(root, path, run.request),
            ToolReplyView::Failed { reason } => fail_move(
                ToolErrorView::ResolvePath { path: candidate, reason },
            ),
            _ => unexpected,
        },
        ToolPhaseView::Ancestor { root, candidate, candidates } => match reply {
            ToolReplyView::Found { index } => if index < candidates.len() {
                ToolMove {
                    phase: ToolPhaseView::Parent {
                        root,
                        candidate,
                        ancestor: candidates[index as int],
                    },
                    step: ToolStepView::Resolve { path: candidates[index as int] },
                }
            } else {
                unexpected
            },
            ToolReplyView::NotFound => if candidates.len() > 0 {
                fail_move(ToolErrorView::NoExistingParent { path: candidates[0] })
            } else {
                unexpected
            },
            _ => unexpected,
        },
        ToolPhaseView::Parent { root, candidate, ancestor } => match reply {
            ToolReplyView::Resolved { path } => if path_begins(path, root) {
                inspect_move(candidate)
            } else {
                fail_move(ToolErrorView::OutsideWorkspace { path, root })
            },
            ToolReplyView::Failed { reason } => fail_move(
                ToolErrorView::ResolveParent { path: ancestor, reason },
            ),
            _ => unexpected,
        },
        ToolPhaseView::File { path } => match reply {
            ToolReplyView::Inspected { state } => file_move(path, state, run.request),
            _ => unexpected,
        },
        ToolPhaseView::Writing { path, output } => match reply {
            ToolReplyView::Written => done_move(output),
            ToolReplyView::ParentFailed { reason } => fail_move(
                ToolErrorView::CreateDirectory { path: directory_of(path), reason },
            ),
            ToolReplyView::Failed { reason } => fail_move(
                write_failure(path, reason, run.request),
            ),
            _ => unexpected,
        },
        ToolPhaseView::Searching { root, target, matches } => match (reply, run.request) {
            (
                ToolReplyView::FileRead { path, content },
                ToolRequestView::Grep { pattern, path: _, max_matches },
            ) => found_move(
                root,
                target,
                matches,
                found_in(root, path, content, pattern),
                max_matches,
            ),
            (ToolReplyView::NoMoreFiles, _) => done_move(
                ToolOutputView::Grep { matches, truncated: false },
            ),
            (ToolReplyView::Failed { reason }, _) => fail_move(
                ToolErrorView::WalkFailed { path: target, reason },
            ),
            _ => unexpected,
        },
        ToolPhaseView::Executing => match (reply, run.request) {
            (
                ToolReplyView::Executed { status_code, stdout, stderr, timed_out },
                ToolRequestView::Shell { command, timeout_ms, max_output_bytes },
            ) => done_move(
                shell_result(
                    status_code,
                    utf8_lossy(stdout),
                    utf8_lossy(stderr),
                    timed_out,
                    max_output_bytes,
                ),
            ),
            (
                ToolReplyView::Failed { reason },
                ToolRequestView::Shell { command, timeout_ms, max_output_bytes },
            ) => fail_move(ToolErrorView::StartFailed { command, reason }),
            (
                ToolReplyView::CollectFailed { reason },
                ToolRequestView::Shell { command, timeout_ms, max_output_bytes },
            ) => fail_move(ToolErrorView::CollectFailed { command, reason }),
            (ToolReplyView::WaitFailed { reason }, _) => fail_move(
                ToolErrorView::Interrupted { reason },
            ),
            _ => unexpected,
        },
        ToolPhaseView::Over => unexpected,
    }
}

/// Whether a tool in this phase can only be asking for what its request allows: an edit in
/// progress has a text to look for.
pub open spec fn tool_run_inv(run: ToolRunView) -> bool {
    match run.request {
        ToolRequestView::Edit { path, old, new } => run.phase is Over || old.len() > 0,
        _ => true,
    }
}

fn fail(error: ToolError) -> (r: (ToolPhase, ToolStep))
    ensures
        (ToolMove { phase: r.0@, step: r.1@ }) == fail_move(error@),
{
    (ToolPhase::Over, ToolStep::Fail { error })
}

fn done(output: ToolOutput) -> (r: (ToolPhase, ToolStep))
    ensures
        (ToolMove { phase: r.0@, step: r.1@ }) == done_move(output@),
{
    (ToolPhase::Over, ToolStep::Done { output })
}

fn look_for(root: String, path: &str) -> (r: (ToolPhase, ToolStep))
    ensures
        (ToolMove { phase: r.0@, step: r.1@ }) == target_move(root@, path@),
{
    let candidate = normalize_candidate(root.as_str(), path);
    (
        ToolPhase::Target { root, candidate: candidate.clone() },
        ToolStep::Resolve { path: candidate },
    )
}

fn search_below(root: String, target: String, max_matches: Option<usize>) -> (r: (
    ToolPhase,
    ToolStep,
))
    ensures
        (ToolMove { phase: r.0@, step: r.1@ }) == search_move(root@, target@, max_matches),
{
    let matches: Vec<GrepMatch> = Vec::new();
    proof {
        assert(grep_match_views(matches@) =~= Seq::empty());
    }
    if max_matches == Some(0usize) {
        return done(ToolOutput::Grep { matches, truncated: true });
    }
    let asked = target.clone();
    (ToolPhase::Searching { root, target, matches }, ToolStep::NextFile { target: asked })
}

fn inspect(path: String) -> (r: (ToolPhase, ToolStep))
    ensures
        (ToolMove { phase: r.0@, step: r.1@ }) == inspect_move(path@),
{
    (ToolPhase::File { path: path.clone() }, ToolStep::Inspect { path })
}

/// The path that a request means.
pub fn normalize_candidate(root: &str, path: &str) -> (r: String)
    ensures
        r@ == candidate_path(root@, path@),
{
    normalize_path(join(root, path).as_str())
}

fn look_for_write_target(root: String, path: &str) -> (r: (ToolPhase, ToolStep))
    ensures
        (ToolMove { phase: r.0@, step: r.1@ }) == write_target_move(root@, path@),
{
    let candidate = normalize_candidate(root.as_str(), path);
    if !path_starts_with(candidate.as_str(), root.as_str()) {
        return fail(ToolError::OutsideWorkspace { path: candidate, root });
    }
    let mut names = split_segments(candidate.as_str());
    proof {
        assert(views(names@).len() == names@.len());
    }
    if names.len() == 0 {
        return fail(ToolError::NoParent { path: candidate });
    }
    proof {
        assert(views(names@.drop_last()) =~= views(names@).drop_last());
    }
    let _ = names.pop();
    let candidates = ancestors(is_absolute(candidate.as_str()), &names);
    let asked = copy_strings(&candidates);
    (
        ToolPhase::Ancestor { root, candidate, candidates },
        ToolStep::FindExisting { candidates: asked },
    )
}

impl ToolRun {
    /// Whether the phase fits the request.
    pub open spec fn wf(&self) -> bool {
        tool_run_inv(self@) && (self.phase is Over || self.pattern_fits())
    }

    /// Whether a search has its pattern compiled.
    pub open spec fn pattern_fits(&self) -> bool {
        match self.request@ {
            ToolRequestView::Grep { pattern, path, max_matches } => self@.pattern == Some(pattern),
            _ => true,
        }
    }

    fn after_root(&self, root: String) -> (r: (ToolPhase, ToolStep))
        ensures
            (ToolMove { phase: r.0@, step: r.1@ }) == root_move(root@, self@.request),
    {
        match &self.request {
            ToolRequest::Read { path, max_bytes } => look_for(root, path.as_str()),
            ToolRequest::Edit { path, old, new } => look_for(root, path.as_str()),
            ToolRequest::Write { path, content, overwrite } => look_for_write_target(
                root,
                path.as_str(),
            ),
            ToolRequest::Grep { pattern, path, max_matches } => match path {
                Some(p) => look_for(root, p.as_str()),
                None => {
                    let target = root.clone();
                    search_below(root, target, *max_matches)
                },
            },
            ToolRequest::Shell { command, timeout_ms, max_output_bytes } => (
                ToolPhase::Executing,
                ToolStep::Execute {
                    directory: root,
                    command: command.clone(),
                    timeout_ms: timeout_or_default(*timeout_ms),
                },
            ),
        }
    }

    fn after_resolved(&self, root: String, resolved: String) -> (r: (ToolPhase, ToolStep))
        ensures
            (ToolMove { phase: r.0@, step: r.1@ }) == resolved_move(
                root@,
                resolved@,
                self@.request,
            ),
    {
        if !path_starts_with(resolved.as_str(), root.as_str()) {
            return fail(ToolError::OutsideWorkspace { path: resolved, root });
        }
        match &self.request {
            ToolRequest::Grep { pattern, path, max_matches } => search_below(
                root,
                resolved,
                *max_matches,
            ),
            _ => inspect(resolved),
        }
    }

    fn after_inspected(&self, path: &String, state: FileState) -> (r: (ToolPhase, ToolStep))
        requires
            self.request@ is Edit ==> self.request@->Edit_old.len() > 0,
        ensures
            (ToolMove { phase: r.0@, step: r.1@ }) == file_move(path@, state@, self@.request),
    {
        match &self.request {
            ToolRequest::Read { path: _, max_bytes } => match ReadTool.finish(
                path.as_str(),
                state,
                *max_bytes,
            ) {
                Ok(output) => done(output),
                Err(error) => fail(error),
            },
            ToolRequest::Write { path: _, content, overwrite } => match WriteTool.plan(
                path.as_str(),
                &state,
                content.as_str(),
                *overwrite,
            ) {
                Ok(output) => (
                    ToolPhase::Writing { path: path.clone(), output },
                    ToolStep::WriteFile {
                        path: path.clone(),
                        content: content.clone(),
                        create_parent: true,
                    },
                ),
                Err(error) => fail(error),
            },
            ToolRequest::Edit { path: _, old, new } => match EditTool.plan(
                path.as_str(),
                &state,
                old.as_str(),
                new.as_str(),
            ) {
                Ok((content, output)) => (
                    ToolPhase::Writing { path: path.clone(), output },
                    ToolStep::WriteFile { path: path.clone(), content, create_parent: false },
                ),
                Err(error) => fail(error),
            },
            _ => fail(ToolError::UnexpectedReply),
        }
    }

    fn after_file(
        &self,
        root: String,
        target: String,
        mut matches: Vec<GrepMatch>,
        path: String,
        content: Option<String>,
    ) -> (r: (ToolPhase, ToolStep))
        requires
            self.pattern_fits(),
        ensures
            (ToolMove { phase: r.0@, step: r.1@ }) == reply_move(
                ToolRunView {
                    phase: ToolPhaseView::Searching {
                        root: root@,
                        target: target@,
                        matches: grep_match_views(matches@),
                    },
                    ..self@
                },
                ToolReplyView::FileRead { path: path@, content: opt_view(content) },
            ),
    {
        match (&self.request, &self.pattern) {
            (ToolRequest::Grep { pattern: _, path: _, max_matches }, Some(pattern)) => {
                let reached = match content {
                    Some(text) => GrepTool.grep_file(
                        root.as_str(),
                        path.as_str(),
                        text.as_str(),
                        pattern,
                        *max_matches,
                        &mut matches,
                    ),
                    None => false,
                };
                if reached {
                    done(ToolOutput::Grep { matches, truncated: true })
                } else {
                    let asked = target.clone();
                    (
                        ToolPhase::Searching { root, target, matches },
                        ToolStep::NextFile { target: asked },
                    )
                }
            },
            _ => fail(ToolError::UnexpectedReply),
        }
    }

    fn next(&self, phase: ToolPhase, reply: ToolReply) -> (r: (ToolPhase, ToolStep))
        requires
            tool_run_inv(ToolRunView { phase: phase@, ..self@ }),
            phase is Over || self.pattern_fits(),
        ensures
            (ToolMove { phase: r.0@, step: r.1@ }) == reply_move(
                ToolRunView { phase: phase@, ..self@ },
                reply@,
            ),
    {
        match phase {
            ToolPhase::Root => match reply {
                ToolReply::Resolved { path } => self.after_root(path),
                ToolReply::Failed { reason } => fail(
                    ToolError::ResolveWorkspace { path: self.workspace.clone(), reason },
                ),
                _ => fail(ToolError::UnexpectedReply),
            },
            ToolPhase::Target { root, candidate } => match reply {
                ToolReply::Resolved { path } => self.after_resolved(root, path),
                ToolReply::Failed { reason } => fail(
                    ToolError::ResolvePath { path: candidate, reason },
                ),
                _ => fail(ToolError::UnexpectedReply),
            },
            ToolPhase::Ancestor { root, candidate, candidates } => match reply {
                ToolReply::Found { index } => {
                    proof {
                        assert(views(candidates@).len() == candidates@.len());
                    }
                    if index < candidates.len() {
                        let ancestor = candidates[index].clone();
                        let asked = ancestor.clone();
                        (
                            ToolPhase::Parent { root, candidate, ancestor },
                            ToolStep::Resolve { path: asked },
                        )
                    } else {
                        fail(ToolError::UnexpectedReply)
                    }
                },
                ToolReply::NotFound => {
                    proof {
                        assert(views(candidates@).len() == candidates@.len());
                    }
                    if candidates.len() > 0 {
                        fail(ToolError::NoExistingParent { path: candidates[0].clone() })
                    } else {
                        fail(ToolError::UnexpectedReply)
                    }
                },
                _ => fail(ToolError::UnexpectedReply),
            },
            ToolPhase::Parent { root, candidate, ancestor } => match reply {
                ToolReply::Resolved { path } => {
                    if path_starts_with(path.as_str(), root.as_str()) {
                        inspect(candidate)
                    } else {
                        fail(ToolError::OutsideWorkspace { path, root })
                    }
                },
                ToolReply::Failed { reason } => fail(
                    ToolError::ResolveParent { path: ancestor, reason },
                ),
                _ => fail(ToolError::UnexpectedReply),
            },
            ToolPhase::File { path } => match reply {
                ToolReply::Inspected { state } => self.after_inspected(&path, state),
                _ => fail(ToolError::UnexpectedReply),
            },
            ToolPhase::Writing { path, output } => match reply {
                ToolReply::Written => done(output),
                ToolReply::ParentFailed { reason } => fail(
                    ToolError::CreateDirectory { path: parent_of(path.as_str()), reason },
                ),
                ToolReply::Failed { reason } => match &self.request {
                    ToolRequest::Edit { path: _, old, new } => fail(
                        ToolError::EditFailed { path, reason },
                    ),
                    _ => fail(ToolError::WriteFailed { path, reason }),
                },
                _ => fail(ToolError::UnexpectedReply),
            },
            ToolPhase::Searching { root, target, matches } => match reply {
                ToolReply::FileRead { path, content } => self.after_file(
                    root,
                    target,
                    matches,
                    path,
                    content,
                ),
                ToolReply::NoMoreFiles => done(ToolOutput::Grep { matches, truncated: false }),
                ToolReply::Failed { reason } => fail(
                    ToolError::WalkFailed { path: target, reason },
                ),
                _ => fail(ToolError::UnexpectedReply),
            },
            ToolPhase::Executing => match (reply, &self.request) {
                (
                    ToolReply::Executed { status_code, stdout, stderr, timed_out },
                    ToolRequest::Shell { command, timeout_ms, max_output_bytes },
                ) => done(
                    ShellTool.finish(
                        status_code,
                        stdout.as_slice(),
                        stderr.as_slice(),
                        timed_out,
                        *max_output_bytes,
                    ),
                ),
                (
                    ToolReply::Failed { reason },
                    ToolRequest::Shell { command, timeout_ms, max_output_bytes },
                ) => fail(ToolError::StartFailed { command: command.clone(), reason }),
                (
                    ToolReply::CollectFailed { reason },
                    ToolRequest::Shell { command, timeout_ms, max_output_bytes },
                ) => fail(ToolError::CollectFailed { command: command.clone(), reason }),
                (ToolReply::WaitFailed { reason }, _) => fail(ToolError::Interrupted { reason }),
                _ => fail(ToolError::UnexpectedReply),
            },
            ToolPhase::Over => fail(ToolError::UnexpectedReply),
        }
    }

    /// Goes on with the answer to the last step, and says what has to be done next.
    pub fn advance(&mut self, reply: ToolReply) -> (step: ToolStep)
        requires
            old(self).wf(),
        ensures
            final(self).wf(),
            ({
                let m = reply_move(old(self)@, reply@);
                &&& step@ == m.step
                &&& final(self)@ == (ToolRunView { phase: m.phase, ..old(self)@ })
            }),
    {
        let mut waiting = ToolPhase::Over;
        core::mem::swap(&mut self.phase, &mut waiting);
        let (phase, step) = self.next(waiting, reply);
        self.phase = phase;
        step
    }
}

/// The tools by their requests.
#[derive(Debug, Default, Clone, Copy)]
pub struct ToolRegistry;

impl ToolRegistry {
    /// The registry of all tools.
    pub fn new() -> (r: Self)
        ensures
            r == ToolRegistry,
    {
        ToolRegistry
    }

    /// Starts a tool; `compiled` is the pattern of a search, or the reason why it is refused.
    pub fn run_checked(
        &self,
        context: &AgentContext,
        request: ToolRequest,
        compiled: Option<Result<Pattern, String>>,
    ) -> (r: (ToolRun, ToolStep))
        requires
            compiles(request@, compiled),
        ensures
            r.0.wf(),
            r.0@ == (ToolRunView {
                workspace: context@.workspace,
                request: request@,
                pattern: compiled_in(compiled),
                phase: start_move(context@.workspace, request@, refusal_of(compiled)).phase,
            }),
            r.1@ == start_move(context@.workspace, request@, refusal_of(compiled)).step,
    {
        let (pattern, refusal) = match compiled {
            Some(Ok(pattern)) => (Some(pattern), None),
            Some(Err(reason)) => (None, Some(reason)),
            None => (None, None),
        };
        let workspace = context.workspace.clone();
        let (phase, step) = match &request {
            ToolRequest::Edit { path, old, new } => {
                if same(old.as_str(), "") {
                    proof {
                        reveal_strlit("");
                    }
                    fail(ToolError::EmptyOldText)
                } else {
                    proof {
                        reveal_strlit("");
                        if old@.len() == 0 {
                            assert(old@ =~= ""@);
                        }
                    }
                    (ToolPhase::Root, ToolStep::Resolve { path: workspace.clone() })
                }
            },
            ToolRequest::Grep { pattern, path, max_matches } => match refusal {
                Some(reason) => fail(ToolError::InvalidRegex { pattern: pattern.clone(), reason }),
                None => (ToolPhase::Root, ToolStep::Resolve { path: workspace.clone() }),
            },
            ToolRequest::Shell { command, timeout_ms, max_output_bytes } => {
                if to_chars(trim(command.as_str()).as_str()).len() == 0 {
                    fail(ToolError::EmptyCommand)
                } else {
                    (ToolPhase::Root, ToolStep::Resolve { path: workspace.clone() })
                }
            },
            _ => (ToolPhase::Root, ToolStep::Resolve { path: workspace.clone() }),
        };
        (ToolRun { workspace, request, pattern, phase }, step)
    }

    /// Starts a tool.
    pub fn run(&self, context: &AgentContext, request: ToolRequest) -> (r: (ToolRun, ToolStep))
        ensures
            r.0.wf(),
            ({
                let m = start_move(context@.workspace, request@, refusal_of_request(request@));
                &&& r.1@ == m.step
                &&& r.0@ == (ToolRunView {
                    workspace: context@.workspace,
                    request: request@,
                    pattern: pattern_of_request(request@),
                    phase: m.phase,
                })
            }),
    {
        let compiled = match &request {
            ToolRequest::Grep { pattern, path, max_matches } => Some(
                Pattern::new(pattern.as_str()),
            ),
            _ => None,
        };
        self.run_checked(context, request, compiled)
    }
}

/// Whether `compiled` is what compiling the pattern of a search gave; other requests have none.
pub open spec fn compiles(
    request: ToolRequestView,
    compiled: Option<Result<Pattern, String>>,
) -> bool {
    match request {
        ToolRequestView::Grep { pattern, path, max_matches } => compiled is Some && (compiled->0 is Ok
            ==> compiled->0->Ok_0@ == pattern),
        _ => compiled is None,
    }
}

/// The reason why a pattern is refused, if it is.
pub open spec fn refusal_of(compiled: Option<Result<Pattern, String>>) -> Option<Seq<char>> {
    match compiled {
        Some(Err(reason)) => Some(reason@),
        _ => None,
    }
}

/// The pattern that was compiled, if one was.
pub open spec fn compiled_in(compiled: Option<Result<Pattern, String>>) -> Option<Seq<char>> {
    match compiled {
        Some(Ok(pattern)) => Some(pattern@),
        _ => None,
    }
}

/// The pattern of a search where it is accepted; other requests have none.
pub open spec fn pattern_of_request(request: ToolRequestView) -> Option<Seq<char>> {
    match request {
        ToolRequestView::Grep { pattern, path, max_matches } => match regex_refusal(pattern) {
            Some(reason) => None,
            None => Some(pattern),
        },
        _ => None,
    }
}

/// The reason why the pattern of a search is refused, if it is; other requests have none.
pub open spec fn refusal_of_request(request: ToolRequestView) -> Option<Seq<char>> {
    match request {
        ToolRequestView::Grep { pattern, path, max_matches } => regex_refusal(pattern),
        _ => None,
    }
}

/// Starts a tool.
pub fn run_tool(context: &AgentContext, request: ToolRequest) -> (r: (ToolRun, ToolStep))
    ensures
        r.0.wf(),
        ({
            let m = start_move(context@.workspace, request@, refusal_of_request(request@));
            &&& r.1@ == m.step
            &&& r.0@ == (ToolRunView {
                workspace: context@.workspace,
                request: request@,
                pattern: pattern_of_request(request@),
                phase: m.phase,
            })
        }),
{
    ToolRegistry::new().run(context, request)
}

// ---------------------------------------------------------------------------
// Laws
// ---------------------------------------------------------------------------

/// Whether the phase of a tool keeps to its workspace: every file that it looks at or
/// writes lies inside the canonical workspace.
pub open spec fn stays_inside(root: Seq<char>, phase: ToolPhaseView) -> bool {
    match phase {
        ToolPhaseView::Target { root: r, candidate } => r == root,
        ToolPhaseView::Ancestor { root: r, candidate, candidates } => r == root && path_begins(
            candidate,
            root,
        ),
        ToolPhaseView::Parent { root: r, candidate, ancestor } => r == root && path_begins(
            candidate,
            root,
        ),
        ToolPhaseView::File { path } => path_begins(path, root),
        ToolPhaseView::Writing { path, output } => path_begins(path, root),
        ToolPhaseView::Searching { root: r, target, matches } => r == root && path_begins(
            target,
            root,
        ),
        _ => true,
    }
}

/// No tool looks at, writes or searches a file outside the workspace, whatever is
/// answered: a path outside it ends the tool.
pub proof fn tools_stay_inside_workspace(root: Seq<char>, run: ToolRunView, reply: ToolReplyView)
    requires
        stays_inside(root, run.phase),
        run.phase is Root ==> reply == (ToolReplyView::Resolved { path: root }),
    ensures
        ({
            let m = reply_move(run, reply);
            &&& stays_inside(root, m.phase)
            &&& match m.step {
                ToolStepView::Inspect { path } => path_begins(path, root),
                ToolStepView::WriteFile { path, content, create_parent } => path_begins(path, root),
                ToolStepView::NextFile { target } => path_begins(target, root),
                ToolStepView::Execute { directory, command, timeout_ms } => directory == root,
                _ => true,
            }
        }),
{
    assert(components(root) =~= components(root).subrange(0, components(root).len() as int));
}

/// The matches in some files, one after another.
pub open spec fn found_in_all(
    root: Seq<char>,
    files: Seq<(Seq<char>, Option<Seq<char>>)>,
    pattern: Seq<char>,
) -> Seq<GrepMatchView>
    decreases files.len(),
{
    if files.len() == 0 {
        Seq::empty()
    } else {
        found_in(root, files[0].0, files[0].1, pattern) + found_in_all(
            root,
            files.drop_first(),
            pattern,
        )
    }
}

/// How a search ends that is given some files and then no more.
pub open spec fn search_end(
    run: ToolRunView,
    files: Seq<(Seq<char>, Option<Seq<char>>)>,
) -> ToolStepView
    decreases files.len(),
{
    if files.len() == 0 {
        reply_move(run, ToolReplyView::NoMoreFiles).step
    } else {
        let reply = ToolReplyView::FileRead { path: files[0].0, content: files[0].1 };
        let m = reply_move(run, reply);
        if m.phase is Over {
            m.step
        } else {
            search_end(ToolRunView { phase: m.phase, ..run }, files.drop_first())
        }
    }
}

/// A search reports the matches of all files in the order in which they are read, up to
/// its limit, and says whether the limit was reached.
pub proof fn search_reports_all_files(
    run: ToolRunView,
    files: Seq<(Seq<char>, Option<Seq<char>>)>,
)
    requires
        run.request is Grep,
        run.phase is Searching,
    ensures
        ({
            let found = found_in_all(run.phase->Searching_root, files, run.request->Grep_pattern);
            let (matches, truncated) = add_limited(
                run.phase->Searching_matches,
                found,
                run.request->Grep_max_matches,
            );
            search_end(run, files) == (ToolStepView::Done {
                output: ToolOutputView::Grep { matches, truncated },
            })
        }),
    decreases files.len(),
{
    if files.len() > 0 {
        let root = run.phase->Searching_root;
        let pattern = run.request->Grep_pattern;
        let limit = run.request->Grep_max_matches;
        let matches = run.phase->Searching_matches;
        let first = found_in(root, files[0].0, files[0].1, pattern);
        let rest = found_in_all(root, files.drop_first(), pattern);
        limited_search_composes(matches, first, rest, limit);
        let reply = ToolReplyView::FileRead { path: files[0].0, content: files[0].1 };
        let m = reply_move(run, reply);
        if !(m.phase is Over) {
            search_reports_all_files(ToolRunView { phase: m.phase, ..run }, files.drop_first());
        }
    }
}

/// Only a write and an edit write files, and a read or a search never does.
pub proof fn only_write_and_edit_write(run: ToolRunView, reply: ToolReplyView)
    ensures
        reply_move(run, reply).step is WriteFile ==> run.request is Write || run.request is Edit,
{
}

/// A file that exists is never overwritten unless the request says so.
pub proof fn write_never_overwrites_unasked(
    path: Seq<char>,
    state: FileStateView,
    content: Seq<char>,
)
    requires
        !(state is Missing),
    ensures
        ({
            let request = ToolRequestView::Write { path, content, overwrite: false };
            file_move(path, state, request).step is Fail
        }),
{
}

} // verus!
