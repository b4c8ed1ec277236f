//! What tools are asked, what they report, and how they fail.
use vstd::prelude::*;
use crate::measure::{byte_len, byte_prefix, text_len, truncate_bytes};
use crate::number::{decimal, render_usize};
use crate::text::{copy_opt, opt_view, owned};

verus! {

/// One line that a search found.
#[derive(Debug, PartialEq, Eq)]
pub struct GrepMatch {
    pub path: String,
    /// Counted from 1.
    pub line: usize,
    /// The byte of the line where the match starts, counted from 1.
    pub column: usize,
    pub line_text: String,
}

/// The value of a `GrepMatch`.
pub struct GrepMatchView {
    pub path: Seq<char>,
    pub line: usize,
    pub column: usize,
    pub line_text: Seq<char>,
}

impl View for GrepMatch {
    type V = GrepMatchView;

    open spec fn view(&self) -> GrepMatchView {
        GrepMatchView {
            path: self.path@,
            line: self.line,
            column: self.column,
            line_text: self.line_text@,
        }
    }
}

impl Clone for GrepMatch {
    fn clone(&self) -> (r: Self)
        ensures
            r@ == self@,
    {
        GrepMatch {
            path: self.path.clone(),
            line: self.line,
            column: self.column,
            line_text: self.line_text.clone(),
        }
    }
}

/// The values of a list of `GrepMatch`.
pub open spec fn grep_match_views(s: Seq<GrepMatch>) -> Seq<GrepMatchView> {
    Seq::new(s.len(), |i: int| s[i]@)
}

/// A copy of a list of `GrepMatch`.
pub fn copy_grep_matchs(v: &Vec<GrepMatch>) -> (r: Vec<GrepMatch>)
    ensures
        grep_match_views(r@) == grep_match_views(v@),
{
    let mut r: Vec<GrepMatch> = Vec::new();
    let mut i: usize = 0;
    let ghost all = grep_match_views(v@);
    while i < v.len()
        invariant
            i <= v@.len(),
            all == grep_match_views(v@),
            grep_match_views(r@) == all.take(i as int),
        decreases v.len() - i,
    {
        let x = v[i].clone();
        proof {
            assert(grep_match_views(r@.push(x)) =~= grep_match_views(r@).push(x@));
            assert(all.take(i + 1) =~= all.take(i as int).push(v@[i as int]@));
        }
        r.push(x);
        i += 1;
    }
    proof {
        assert(all.take(v@.len() as int) =~= all);
    }
    r
}

/// What a tool is asked to do.
#[derive(Debug, PartialEq, Eq)]
#[allow(inconsistent_fields)]
pub enum ToolRequest {
    Read { path: String, max_bytes: Option<usize> },
    Write { path: String, content: String, overwrite: bool },
    Edit { path: String, old: String, new: String },
    Grep { pattern: String, path: Option<String>, max_matches: Option<usize> },
    Shell { command: String, timeout_ms: Option<u64>, max_output_bytes: Option<usize> },
}

/// The value of a `ToolRequest`.
#[allow(inconsistent_fields)]
pub enum ToolRequestView {
    Read { path: Seq<char>, max_bytes: Option<usize> },
    Write { path: Seq<char>, content: Seq<char>, overwrite: bool },
    Edit { path: Seq<char>, old: Seq<char>, new: Seq<char> },
    Grep { pattern: Seq<char>, path: Option<Seq<char>>, max_matches: Option<usize> },
    Shell { command: Seq<char>, timeout_ms: Option<u64>, max_output_bytes: Option<usize> },
}

impl View for ToolRequest {
    type V = ToolRequestView;

    open spec fn view(&self) -> ToolRequestView {
        match self {
            ToolRequest::Read { path, max_bytes } => ToolRequestView::Read {
                path: path@,
                max_bytes: *max_bytes,
            },
            ToolRequest::Write { path, content, overwrite } => ToolRequestView::Write {
                path: path@,
                content: content@,
                overwrite: *overwrite,
            },
            ToolRequest::Edit { path, old, new } => ToolRequestView::Edit {
                path: path@,
                old: old@,
                new: new@,
            },
            ToolRequest::Grep { pattern, path, max_matches } => ToolRequestView::Grep {
                pattern: pattern@,
                path: opt_view(*path),
                max_matches: *max_matches,
            },
            ToolRequest::Shell { command, timeout_ms, max_output_bytes } => ToolRequestView::Shell {
                command: command@,
                timeout_ms: *timeout_ms,
                max_output_bytes: *max_output_bytes,
            },
        }
    }
}

impl Clone for ToolRequest {
    fn clone(&self) -> (r: Self)
        ensures
            r@ == self@,
    {
        match self {
            ToolRequest::Read { path, max_bytes } => ToolRequest::Read {
                path: path.clone(),
                max_bytes: *max_bytes,
            },
            ToolRequest::Write { path, content, overwrite } => ToolRequest::Write {
                path: path.clone(),
                content: content.clone(),
                overwrite: *overwrite,
            },
            ToolRequest::Edit { path, old, new } => ToolRequest::Edit {
                path: path.clone(),
                old: old.clone(),
                new: new.clone(),
            },
            ToolRequest::Grep { pattern, path, max_matches } => ToolRequest::Grep {
                pattern: pattern.clone(),
                path: copy_opt(path),
                max_matches: *max_matches,
            },
            ToolRequest::Shell { command, timeout_ms, max_output_bytes } => ToolRequest::Shell {
                command: command.clone(),
                timeout_ms: *timeout_ms,
                max_output_bytes: *max_output_bytes,
            },
        }
    }
}

/// What a tool is given.
pub type ToolInput = ToolRequest;

/// What a tool reports.
#[derive(Debug, PartialEq, Eq)]
pub enum ToolOutput {
    Read { path: String, content: String, bytes: usize, truncated: bool },
    Write { path: String, bytes: usize, created: bool, overwritten: bool },
    Edit { path: String, replacements: usize, bytes_before: usize, bytes_after: usize },
    Grep { matches: Vec<GrepMatch>, truncated: bool },
    Shell {
        status_code: Option<i32>,
        stdout: String,
        stderr: String,
        timed_out: bool,
        stdout_truncated: bool,
        stderr_truncated: bool,
    },
}

/// The value of a `ToolOutput`.
pub enum ToolOutputView {
    Read { path: Seq<char>, content: Seq<char>, bytes: usize, truncated: bool },
    Write { path: Seq<char>, bytes: usize, created: bool, overwritten: bool },
    Edit { path: Seq<char>, replacements: usize, bytes_before: usize, bytes_after: usize },
    Grep { matches: Seq<GrepMatchView>, truncated: bool },
    Shell {
        status_code: Option<i32>,
        stdout: Seq<char>,
        stderr: Seq<char>,
        timed_out: bool,
        stdout_truncated: bool,
        stderr_truncated: bool,
    },
}

impl View for ToolOutput {
    type V = ToolOutputView;

    open spec fn view(&self) -> ToolOutputView {
        match self {
            ToolOutput::Read { path, content, bytes, truncated } => ToolOutputView::Read {
                path: path@,
                content: content@,
                bytes: *bytes,
                truncated: *truncated,
            },
            ToolOutput::Write { path, bytes, created, overwritten } => ToolOutputView::Write {
                path: path@,
                bytes: *bytes,
                created: *created,
                overwritten: *overwritten,
            },
            ToolOutput::Edit {
                path,
                replacements,
                bytes_before,
                bytes_after,
            } => ToolOutputView::Edit {
                path: path@,
                replacements: *replacements,
                bytes_before: *bytes_before,
                bytes_after: *bytes_after,
            },
            ToolOutput::Grep { matches, truncated } => ToolOutputView::Grep {
                matches: grep_match_views(matches@),
                truncated: *truncated,
            },
            ToolOutput::Shell {
                status_code,
                stdout,
                stderr,
                timed_out,
                stdout_truncated,
                stderr_truncated,
            } => ToolOutputView::Shell {
                status_code: *status_code,
                stdout: stdout@,
                stderr: stderr@,
                timed_out: *timed_out,
                stdout_truncated: *stdout_truncated,
                stderr_truncated: *stderr_truncated,
            },
        }
    }
}

impl Clone for ToolOutput {
    fn clone(&self) -> (r: Self)
        ensures
            r@ == self@,
    {
        match self {
            ToolOutput::Read { path, content, bytes, truncated } => ToolOutput::Read {
                path: path.clone(),
                content: content.clone(),
                bytes: *bytes,
                truncated: *truncated,
            },
            ToolOutput::Write { path, bytes, created, overwritten } => ToolOutput::Write {
                path: path.clone(),
                bytes: *bytes,
                created: *created,
                overwritten: *overwritten,
            },
            ToolOutput::Edit { path, replacements, bytes_before, bytes_after } => ToolOutput::Edit {
                path: path.clone(),
                replacements: *replacements,
                bytes_before: *bytes_before,
                bytes_after: *bytes_after,
            },
            ToolOutput::Grep { matches, truncated } => ToolOutput::Grep {
                matches: copy_grep_matchs(matches),
                truncated: *truncated,
            },
            ToolOutput::Shell {
                status_code,
                stdout,
                stderr,
                timed_out,
                stdout_truncated,
                stderr_truncated,
            } => ToolOutput::Shell {
                status_code: *status_code,
                stdout: stdout.clone(),
                stderr: stderr.clone(),
                timed_out: *timed_out,
                stdout_truncated: *stdout_truncated,
                stderr_truncated: *stderr_truncated,
            },
        }
    }
}

/// What stands at a path.
#[derive(Debug, PartialEq, Eq)]
pub enum FileState {
    Missing,
    Directory,
    /// Neither a file nor a directory.
    Other,
    Text { content: String },
    /// A file that could not be read as text.
    Unreadable { reason: String },
}

/// The value of a `FileState`.
pub enum FileStateView {
    Missing,
    Directory,
    Other,
    Text { content: Seq<char> },
    Unreadable { reason: Seq<char> },
}

impl View for FileState {
    type V = FileStateView;

    open spec fn view(&self) -> FileStateView {
        match self {
            FileState::Missing => FileStateView::Missing,
            FileState::Directory => FileStateView::Directory,
            FileState::Other => FileStateView::Other,
            FileState::Text { content } => FileStateView::Text {
                content: content@,
            },
            FileState::Unreadable { reason } => FileStateView::Unreadable {
                reason: reason@,
            },
        }
    }
}

impl Clone for FileState {
    fn clone(&self) -> (r: Self)
        ensures
            r@ == self@,
    {
        match self {
            FileState::Missing => FileState::Missing,
            FileState::Directory => FileState::Directory,
            FileState::Other => FileState::Other,
            FileState::Text { content } => FileState::Text {
                content: content.clone(),
            },
            FileState::Unreadable { reason } => FileState::Unreadable {
                reason: reason.clone(),
            },
        }
    }
}

/// Why a tool failed.
#[derive(Debug, PartialEq, Eq)]
pub enum ToolError {
    ResolveWorkspace { path: String, reason: String },
    ResolvePath { path: String, reason: String },
    ResolveParent { path: String, reason: String },
    OutsideWorkspace { path: String, root: String },
    NoParent { path: String },
    NoExistingParent { path: String },
    ReadTargetNotAFile { path: String },
    EditTargetNotAFile { path: String },
    ReadFailed { path: String, reason: String },
    EmptyOldText,
    OldTextNotFound { path: String },
    OldTextRepeated { path: String, count: usize },
    TargetIsDirectory { path: String },
    WouldOverwrite { path: String },
    WriteFailed { path: String, reason: String },
    EditFailed { path: String, reason: String },
    InvalidRegex { pattern: String, reason: String },
    EmptyCommand,
    CreateDirectory { path: String, reason: String },
    WalkFailed { path: String, reason: String },
    StartFailed { command: String, reason: String },
    CollectFailed { command: String, reason: String },
    /// A running command could not be watched, for this reason.
    Interrupted { reason: String },
    /// The reply does not answer the step.
    UnexpectedReply,
}

/// The value of a `ToolError`.
pub enum ToolErrorView {
    ResolveWorkspace { path: Seq<char>, reason: Seq<char> },
    ResolvePath { path: Seq<char>, reason: Seq<char> },
    ResolveParent { path: Seq<char>, reason: Seq<char> },
    OutsideWorkspace { path: Seq<char>, root: Seq<char> },
    NoParent { path: Seq<char> },
    NoExistingParent { path: Seq<char> },
    ReadTargetNotAFile { path: Seq<char> },
    EditTargetNotAFile { path: Seq<char> },
    ReadFailed { path: Seq<char>, reason: Seq<char> },
    EmptyOldText,
    OldTextNotFound { path: Seq<char> },
    OldTextRepeated { path: Seq<char>, count: usize },
    TargetIsDirectory { path: Seq<char> },
    WouldOverwrite { path: Seq<char> },
    WriteFailed { path: Seq<char>, reason: Seq<char> },
    EditFailed { path: Seq<char>, reason: Seq<char> },
    InvalidRegex { pattern: Seq<char>, reason: Seq<char> },
    EmptyCommand,
    CreateDirectory { path: Seq<char>, reason: Seq<char> },
    WalkFailed { path: Seq<char>, reason: Seq<char> },
    StartFailed { command: Seq<char>, reason: Seq<char> },
    CollectFailed { command: Seq<char>, reason: Seq<char> },
    Interrupted { reason: Seq<char> },
    UnexpectedReply,
}

impl View for ToolError {
    type V = ToolErrorView;

    open spec fn view(&self) -> ToolErrorView {
        match self {
            ToolError::ResolveWorkspace { path, reason } => ToolErrorView::ResolveWorkspace {
                path: path@,
                reason: reason@,
            },
            ToolError::ResolvePath { path, reason } => ToolErrorView::ResolvePath {
                path: path@,
                reason: reason@,
            },
            ToolError::ResolveParent { path, reason } => ToolErrorView::ResolveParent {
                path: path@,
                reason: reason@,
            },
            ToolError::OutsideWorkspace { path, root } => ToolErrorView::OutsideWorkspace {
                path: path@,
                root: root@,
            },
            ToolError::NoParent { path } => ToolErrorView::NoParent {
                path: path@,
            },
            ToolError::NoExistingParent { path } => ToolErrorView::NoExistingParent {
                path: path@,
            },
            ToolError::ReadTargetNotAFile { path } => ToolErrorView::ReadTargetNotAFile {
                path: path@,
            },
            ToolError::EditTargetNotAFile { path } => ToolErrorView::EditTargetNotAFile {
                path: path@,
            },
            ToolError::ReadFailed { path, reason } => ToolErrorView::ReadFailed {
                path: path@,
                reason: reason@,
            },
            ToolError::EmptyOldText => ToolErrorView::EmptyOldText,
            ToolError::OldTextNotFound { path } => ToolErrorView::OldTextNotFound {
                path: path@,
            },
            ToolError::OldTextRepeated { path, count } => ToolErrorView::OldTextRepeated {
                path: path@,
                count: *count,
            },
            ToolError::TargetIsDirectory { path } => ToolErrorView::TargetIsDirectory {
                path: path@,
            },
            ToolError::WouldOverwrite { path } => ToolErrorView::WouldOverwrite {
                path: path@,
            },
            ToolError::WriteFailed { path, reason } => ToolErrorView::WriteFailed {
                path: path@,
                reason: reason@,
            },
            ToolError::EditFailed { path, reason } => ToolErrorView::EditFailed {
                path: path@,
                reason: reason@,
            },
            ToolError::InvalidRegex { pattern, reason } => ToolErrorView::InvalidRegex {
                pattern: pattern@,
                reason: reason@,
            },
            ToolError::EmptyCommand => ToolErrorView::EmptyCommand,
            ToolError::CreateDirectory { path, reason } => ToolErrorView::CreateDirectory {
                path: path@,
                reason: reason@,
            },
            ToolError::WalkFailed { path, reason } => ToolErrorView::WalkFailed {
                path: path@,
                reason: reason@,
            },
            ToolError::StartFailed { command, reason } => ToolErrorView::StartFailed {
                command: command@,
                reason: reason@,
            },
            ToolError::CollectFailed { command, reason } => ToolErrorView::CollectFailed {
                command: command@,
                reason: reason@,
            },
            ToolError::Interrupted { reason } => ToolErrorView::Interrupted {
                reason: reason@,
            },
            ToolError::UnexpectedReply => ToolErrorView::UnexpectedReply,
        }
    }
}

impl Clone for ToolError {
    fn clone(&self) -> (r: Self)
        ensures
            r@ == self@,
    {
        match self {
            ToolError::ResolveWorkspace { path, reason } => ToolError::ResolveWorkspace {
                path: path.clone(),
                reason: reason.clone(),
            },
            ToolError::ResolvePath { path, reason } => ToolError::ResolvePath {
                path: path.clone(),
                reason: reason.clone(),
            },
            ToolError::ResolveParent { path, reason } => ToolError::ResolveParent {
                path: path.clone(),
                reason: reason.clone(),
            },
            ToolError::OutsideWorkspace { path, root } => ToolError::OutsideWorkspace {
                path: path.clone(),
                root: root.clone(),
            },
            ToolError::NoParent { path } => ToolError::NoParent {
                path: path.clone(),
            },
            ToolError::NoExistingParent { path } => ToolError::NoExistingParent {
                path: path.clone(),
            },
            ToolError::ReadTargetNotAFile { path } => ToolError::ReadTargetNotAFile {
                path: path.clone(),
            },
            ToolError::EditTargetNotAFile { path } => ToolError::EditTargetNotAFile {
                path: path.clone(),
            },
            ToolError::ReadFailed { path, reason } => ToolError::ReadFailed {
                path: path.clone(),
                reason: reason.clone(),
            },
            ToolError::EmptyOldText => ToolError::EmptyOldText,
            ToolError::OldTextNotFound { path } => ToolError::OldTextNotFound {
                path: path.clone(),
            },
            ToolError::OldTextRepeated { path, count } => ToolError::OldTextRepeated {
                path: path.clone(),
                count: *count,
            },
            ToolError::TargetIsDirectory { path } => ToolError::TargetIsDirectory {
                path: path.clone(),
            },
            ToolError::WouldOverwrite { path } => ToolError::WouldOverwrite {
                path: path.clone(),
            },
            ToolError::WriteFailed { path, reason } => ToolError::WriteFailed {
                path: path.clone(),
                reason: reason.clone(),
            },
            ToolError::EditFailed { path, reason } => ToolError::EditFailed {
                path: path.clone(),
                reason: reason.clone(),
            },
            ToolError::InvalidRegex { pattern, reason } => ToolError::InvalidRegex {
                pattern: pattern.clone(),
                reason: reason.clone(),
            },
            ToolError::EmptyCommand => ToolError::EmptyCommand,
            ToolError::CreateDirectory { path, reason } => ToolError::CreateDirectory {
                path: path.clone(),
                reason: reason.clone(),
            },
            ToolError::WalkFailed { path, reason } => ToolError::WalkFailed {
                path: path.clone(),
                reason: reason.clone(),
            },
            ToolError::StartFailed { command, reason } => ToolError::StartFailed {
                command: command.clone(),
                reason: reason.clone(),
            },
            ToolError::CollectFailed { command, reason } => ToolError::CollectFailed {
                command: command.clone(),
                reason: reason.clone(),
            },
            ToolError::Interrupted { reason } => ToolError::Interrupted {
                reason: reason.clone(),
            },
            ToolError::UnexpectedReply => ToolError::UnexpectedReply,
        }
    }
}

/// The text of a tool error.
pub open spec fn tool_error_text(e: ToolErrorView) -> Seq<char> {
    match e {
        ToolErrorView::ResolveWorkspace { path, reason } => "failed to resolve workspace "@ + path
            + ": "@ + reason,
        ToolErrorView::ResolvePath { path, reason } => "failed to resolve path "@ + path + ": "@
            + reason,
        ToolErrorView::ResolveParent { path, reason } => "failed to resolve parent directory "@
            + path + ": "@ + reason,
        ToolErrorView::OutsideWorkspace { path, root } => "path "@ + path
            + " is outside workspace "@ + root,
        ToolErrorView::NoParent { path } => "path has no parent directory: "@ + path,
        ToolErrorView::NoExistingParent { path } => "no existing parent directory for "@ + path,
        ToolErrorView::ReadTargetNotAFile { path } => "read target is not a file: "@ + path,
        ToolErrorView::EditTargetNotAFile { path } => "edit target is not a file: "@ + path,
        ToolErrorView::ReadFailed { path, reason } => "failed to read file "@ + path + ": "@
            + reason,
        ToolErrorView::EmptyOldText => "edit old text must not be empty"@,
        ToolErrorView::OldTextNotFound { path } => "old text was not found in "@ + path,
        ToolErrorView::OldTextRepeated { path, count } => "old text appears "@
            + decimal(count as nat) + " times in "@ + path + "; edit requires a unique match"@,
        ToolErrorView::TargetIsDirectory { path } => "write target is a directory: "@ + path,
        ToolErrorView::WouldOverwrite { path } => "refusing to overwrite existing file "@ + path,
        ToolErrorView::WriteFailed { path, reason } => "failed to write file "@ + path + ": "@
            + reason,
        ToolErrorView::EditFailed { path, reason } => "failed to write edited file "@ + path
            + ": "@ + reason,
        ToolErrorView::InvalidRegex { pattern, reason } => "invalid regex '"@ + pattern + "': "@
            + reason,
        ToolErrorView::EmptyCommand => "shell command must not be empty"@,
        ToolErrorView::CreateDirectory { path, reason } => "failed to create directory "@ + path
            + ": "@ + reason,
        ToolErrorView::WalkFailed { path, reason } => "failed while walking grep target "@ + path
            + ": "@ + reason,
        ToolErrorView::StartFailed { command, reason } => "failed to start shell command: "@ + command
            + ": "@ + reason,
        ToolErrorView::CollectFailed {
            command,
            reason,
        } => "failed to collect shell command output: "@ + command + ": "@ + reason,
        ToolErrorView::Interrupted { reason } => reason,
        ToolErrorView::UnexpectedReply => "unexpected reply to a tool step"@,
    }
}

impl ToolError {
    /// The text of the error.
    pub fn message(&self) -> (r: String)
        ensures
            r@ == tool_error_text(self@),
    {
        match self {
            ToolError::ResolveWorkspace { path, reason } => owned("failed to resolve workspace ")
                .concat(path.as_str()).concat(": ").concat(reason.as_str()),
            ToolError::ResolvePath { path, reason } => owned("failed to resolve path ")
                .concat(path.as_str()).concat(": ").concat(reason.as_str()),
            ToolError::ResolveParent { path, reason } => owned("failed to resolve parent directory ")
                .concat(path.as_str()).concat(": ").concat(reason.as_str()),
            ToolError::OutsideWorkspace { path, root } => owned("path ").concat(path.as_str())
                .concat(" is outside workspace ").concat(root.as_str()),
            ToolError::NoParent { path } => owned("path has no parent directory: ")
                .concat(path.as_str()),
            ToolError::NoExistingParent { path } => owned("no existing parent directory for ")
                .concat(path.as_str()),
            ToolError::ReadTargetNotAFile { path } => owned("read target is not a file: ")
                .concat(path.as_str()),
            ToolError::EditTargetNotAFile { path } => owned("edit target is not a file: ")
                .concat(path.as_str()),
            ToolError::ReadFailed { path, reason } => owned("failed to read file ")
                .concat(path.as_str()).concat(": ").concat(reason.as_str()),
            ToolError::EmptyOldText => owned("edit old text must not be empty"),
            ToolError::OldTextNotFound { path } => owned("old text was not found in ")
                .concat(path.as_str()),
            ToolError::OldTextRepeated { path, count } => owned("old text appears ")
                .concat(render_usize(*count).as_str()).concat(" times in ").concat(path.as_str())
                .concat("; edit requires a unique match"),
            ToolError::TargetIsDirectory { path } => owned("write target is a directory: ")
                .concat(path.as_str()),
            ToolError::WouldOverwrite { path } => owned("refusing to overwrite existing file ")
                .concat(path.as_str()),
            ToolError::WriteFailed { path, reason } => owned("failed to write file ")
                .concat(path.as_str()).concat(": ").concat(reason.as_str()),
            ToolError::EditFailed { path, reason } => owned("failed to write edited file ")
                .concat(path.as_str()).concat(": ").concat(reason.as_str()),
            ToolError::InvalidRegex { pattern, reason } => owned("invalid regex '")
                .concat(pattern.as_str()).concat("': ").concat(reason.as_str()),
            ToolError::EmptyCommand => owned("shell command must not be empty"),
            ToolError::CreateDirectory { path, reason } => owned("failed to create directory ")
                .concat(path.as_str()).concat(": ").concat(reason.as_str()),
            ToolError::WalkFailed { path, reason } => owned("failed while walking grep target ")
                .concat(path.as_str()).concat(": ").concat(reason.as_str()),
            ToolError::StartFailed { command, reason } => owned("failed to start shell command: ")
                .concat(command.as_str()).concat(": ").concat(reason.as_str()),
            ToolError::CollectFailed { command, reason } => owned("failed to collect shell command output: ")
                .concat(command.as_str()).concat(": ").concat(reason.as_str()),
            ToolError::Interrupted { reason } => reason.clone(),
            ToolError::UnexpectedReply => owned("unexpected reply to a tool step"),
        }
    }
}

/// A text cut to at most `max` bytes, and whether anything was cut off.
pub open spec fn cut_text(text: Seq<char>, max: Option<usize>) -> (Seq<char>, bool) {
    match max {
        Some(n) => if byte_len(text) <= n {
            (text, false)
        } else {
            (byte_prefix(text, n as nat), true)
        },
        None => (text, false),
    }
}

/// Cuts a text to at most `max_bytes` bytes, at a character boundary.
pub fn truncate_to_bytes(text: String, max_bytes: Option<usize>) -> (r: (String, bool))
    ensures
        (r.0@, r.1) == cut_text(text@, max_bytes),
{
    match max_bytes {
        Some(max) => {
            if text_len(text.as_str()) <= max {
                (text, false)
            } else {
                (truncate_bytes(text.as_str(), max), true)
            }
        },
        None => (text, false),
    }
}

} // verus!
