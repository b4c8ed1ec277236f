//! What a tool call of the model means.
use vstd::prelude::*;
use crate::agent::json::{
    arguments_fields, field_flag, field_natural, field_size, field_text, fields_result, flag_field,
    json_error_text, json_field_views, natural_field, parse_json_robust, size_field, text_field,
    JsonError, JsonErrorView, JsonField, JsonFieldView,
};
use crate::text::{
    after_prefix, begins, contains, ends, ends_with, find, occurs_in, opt_view, owned, same, search,
    slice_string, split_first, split_once, starts_with, strip_prefix, to_chars, trim, trimmed,
};
use crate::tools::grep::{regex_refusal, Pattern};
use crate::tools::tool::{ToolRequest, ToolRequestView};

verus! {

/// Why a tool call cannot be carried out as it stands.
#[derive(Debug, PartialEq, Eq)]
pub enum CallError {
    /// The arguments are no JSON object.
    Arguments { error: JsonError },
    /// A field is missing or of another type.
    MissingField { key: String },
    UnknownTool { name: String },
    InvalidRegex { pattern: String, reason: String },
    /// The arguments of the tool `name` do not fit it.
    Unfit { name: String, arguments: String, reason: String },
    /// The tool failed, with what was being done first.
    Failed { context: String, reason: String },
}

/// The value of a `CallError`.
pub enum CallErrorView {
    Arguments { error: JsonErrorView },
    MissingField { key: Seq<char> },
    UnknownTool { name: Seq<char> },
    InvalidRegex { pattern: Seq<char>, reason: Seq<char> },
    Unfit { name: Seq<char>, arguments: Seq<char>, reason: Seq<char> },
    Failed { context: Seq<char>, reason: Seq<char> },
}

impl View for CallError {
    type V = CallErrorView;

    open spec fn view(&self) -> CallErrorView {
        match self {
            CallError::Arguments { error } => CallErrorView::Arguments {
                error: error@,
            },
            CallError::MissingField { key } => CallErrorView::MissingField {
                key: key@,
            },
            CallError::UnknownTool { name } => CallErrorView::UnknownTool {
                name: name@,
            },
            CallError::InvalidRegex { pattern, reason } => CallErrorView::InvalidRegex {
                pattern: pattern@,
                reason: reason@,
            },
            CallError::Unfit { name, arguments, reason } => CallErrorView::Unfit {
                name: name@,
                arguments: arguments@,
                reason: reason@,
            },
            CallError::Failed { context, reason } => CallErrorView::Failed {
                context: context@,
                reason: reason@,
            },
        }
    }
}

impl Clone for CallError {
    fn clone(&self) -> (r: Self)
        ensures
            r@ == self@,
    {
        match self {
            CallError::Arguments { error } => CallError::Arguments {
                error: error.clone(),
            },
            CallError::MissingField { key } => CallError::MissingField {
                key: key.clone(),
            },
            CallError::UnknownTool { name } => CallError::UnknownTool {
                name: name.clone(),
            },
            CallError::InvalidRegex { pattern, reason } => CallError::InvalidRegex {
                pattern: pattern.clone(),
                reason: reason.clone(),
            },
            CallError::Unfit { name, arguments, reason } => CallError::Unfit {
                name: name.clone(),
                arguments: arguments.clone(),
                reason: reason.clone(),
            },
            CallError::Failed { context, reason } => CallError::Failed {
                context: context.clone(),
                reason: reason.clone(),
            },
        }
    }
}

/// What has to be done for a tool call.
#[derive(Debug, PartialEq, Eq)]
pub enum ToolPlan {
    /// Extract the text of a PDF file.
    ReadPdf { path: String },
    /// Extract the text of a Word file.
    ReadDocx { path: String },
    /// Read any file, inside the workspace or not.
    ReadFile { path: String, max_bytes: Option<usize> },
    /// Search any file or directory, inside the workspace or not.
    Search { pattern: String, root: String, max_matches: usize },
    /// Answer without doing anything.
    Reply { text: String },
    /// Run a tool in the workspace, with a record; `context` says what was being done if it fails.
    Run { request: ToolRequest, context: String },
}

/// The value of a `ToolPlan`.
pub enum ToolPlanView {
    ReadPdf { path: Seq<char> },
    ReadDocx { path: Seq<char> },
    ReadFile { path: Seq<char>, max_bytes: Option<usize> },
    Search { pattern: Seq<char>, root: Seq<char>, max_matches: usize },
    Reply { text: Seq<char> },
    Run { request: ToolRequestView, context: Seq<char> },
}

impl View for ToolPlan {
    type V = ToolPlanView;

    open spec fn view(&self) -> ToolPlanView {
        match self {
            ToolPlan::ReadPdf { path } => ToolPlanView::ReadPdf {
                path: path@,
            },
            ToolPlan::ReadDocx { path } => ToolPlanView::ReadDocx {
                path: path@,
            },
            ToolPlan::ReadFile { path, max_bytes } => ToolPlanView::ReadFile {
                path: path@,
                max_bytes: *max_bytes,
            },
            ToolPlan::Search { pattern, root, max_matches } => ToolPlanView::Search {
                pattern: pattern@,
                root: root@,
                max_matches: *max_matches,
            },
            ToolPlan::Reply { text } => ToolPlanView::Reply {
                text: text@,
            },
            ToolPlan::Run { request, context } => ToolPlanView::Run {
                request: request@,
                context: context@,
            },
        }
    }
}

impl Clone for ToolPlan {
    fn clone(&self) -> (r: Self)
        ensures
            r@ == self@,
    {
        match self {
            ToolPlan::ReadPdf { path } => ToolPlan::ReadPdf {
                path: path.clone(),
            },
            ToolPlan::ReadDocx { path } => ToolPlan::ReadDocx {
                path: path.clone(),
            },
            ToolPlan::ReadFile { path, max_bytes } => ToolPlan::ReadFile {
                path: path.clone(),
                max_bytes: *max_bytes,
            },
            ToolPlan::Search { pattern, root, max_matches } => ToolPlan::Search {
                pattern: pattern.clone(),
                root: root.clone(),
                max_matches: *max_matches,
            },
            ToolPlan::Reply { text } => ToolPlan::Reply {
                text: text.clone(),
            },
            ToolPlan::Run { request, context } => ToolPlan::Run {
                request: request.clone(),
                context: context.clone(),
            },
        }
    }
}

/// The value of a result that is a request.
pub open spec fn request_result(r: Result<ToolRequest, CallError>) -> Result<
    ToolRequestView,
    CallErrorView,
> {
    match r {
        Ok(x) => Ok(x@),
        Err(e) => Err(e@),
    }
}

/// The value of a result that is a plan.
pub open spec fn plan_result(r: Result<ToolPlan, CallError>) -> Result<ToolPlanView, CallErrorView> {
    match r {
        Ok(x) => Ok(x@),
        Err(e) => Err(e@),
    }
}

/// The value of a result that is a text.
pub open spec fn text_result(r: Result<String, CallError>) -> Result<Seq<char>, CallErrorView> {
    match r {
        Ok(x) => Ok(x@),
        Err(e) => Err(e@),
    }
}

/// The text of a field that has to be there.
pub open spec fn needed_text(fields: Seq<JsonFieldView>, key: Seq<char>) -> Result<
    Seq<char>,
    CallErrorView,
> {
    match field_text(fields, key) {
        Some(value) => Ok(value),
        None => Err(CallErrorView::MissingField { key }),
    }
}

/// The request that a call of the tool `name` with these fields means.
pub open spec fn request_of(name: Seq<char>, fields: Seq<JsonFieldView>) -> Result<
    ToolRequestView,
    CallErrorView,
> {
    if name == "read"@ {
        match needed_text(fields, "path"@) {
            Ok(path) => Ok(
                ToolRequestView::Read { path, max_bytes: field_size(fields, "max_bytes"@) },
            ),
            Err(e) => Err(e),
        }
    } else if name == "write"@ {
        match needed_text(fields, "path"@) {
            Ok(path) => match needed_text(fields, "content"@) {
                Ok(content) => Ok(
                    ToolRequestView::Write {
                        path,
                        content,
                        overwrite: field_flag(fields, "overwrite"@) == Some(true),
                    },
                ),
                Err(e) => Err(e),
            },
            Err(e) => Err(e),
        }
    } else if name == "edit"@ {
        match needed_text(fields, "path"@) {
            Ok(path) => match needed_text(fields, "old"@) {
                Ok(old) => match needed_text(fields, "new"@) {
                    Ok(new) => Ok(ToolRequestView::Edit { path, old, new }),
                    Err(e) => Err(e),
                },
                Err(e) => Err(e),
            },
            Err(e) => Err(e),
        }
    } else if name == "grep"@ {
        match needed_text(fields, "pattern"@) {
            Ok(pattern) => Ok(
                ToolRequestView::Grep {
                    pattern,
                    path: field_text(fields, "path"@),
                    max_matches: field_size(fields, "max_matches"@),
                },
            ),
            Err(e) => Err(e),
        }
    } else if name == "shell"@ {
        match needed_text(fields, "command"@) {
            Ok(command) => Ok(
                ToolRequestView::Shell {
                    command,
                    timeout_ms: field_natural(fields, "timeout_ms"@),
                    max_output_bytes: field_size(fields, "max_output_bytes"@),
                },
            ),
            Err(e) => Err(e),
        }
    } else {
        Err(CallErrorView::UnknownTool { name })
    }
}

/// The request that a call of the tool `name` means, where its arguments were read as `read`.
pub open spec fn request_of_read(
    name: Seq<char>,
    read: Result<Seq<JsonFieldView>, JsonErrorView>,
) -> Result<ToolRequestView, CallErrorView> {
    match read {
        Ok(fields) => request_of(name, fields),
        Err(error) => Err(CallErrorView::Arguments { error }),
    }
}

/// The text of a field that has to be there.
pub fn get_string(fields: &Vec<JsonField>, key: &str) -> (r: Result<String, CallError>)
    ensures
        text_result(r) == needed_text(json_field_views(fields@), key@),
{
    match text_field(fields, key) {
        Some(value) => Ok(value),
        None => Err(CallError::MissingField { key: owned(key) }),
    }
}

/// The request that a call of the tool `name` with these fields means.
pub fn request_from_fields(name: &str, fields: &Vec<JsonField>) -> (r: Result<
    ToolRequest,
    CallError,
>)
    ensures
        request_result(r) == request_of(name@, json_field_views(fields@)),
{
    if same(name, "read") {
        match get_string(fields, "path") {
            Ok(path) => Ok(ToolRequest::Read { path, max_bytes: size_field(fields, "max_bytes") }),
            Err(e) => Err(e),
        }
    } else if same(name, "write") {
        match get_string(fields, "path") {
            Ok(path) => match get_string(fields, "content") {
                Ok(content) => {
                    let overwrite = match flag_field(fields, "overwrite") {
                        Some(flag) => flag,
                        None => false,
                    };
                    Ok(ToolRequest::Write { path, content, overwrite })
                },
                Err(e) => Err(e),
            },
            Err(e) => Err(e),
        }
    } else if same(name, "edit") {
        match get_string(fields, "path") {
            Ok(path) => match get_string(fields, "old") {
                Ok(old) => match get_string(fields, "new") {
                    Ok(new) => Ok(ToolRequest::Edit { path, old, new }),
                    Err(e) => Err(e),
                },
                Err(e) => Err(e),
            },
            Err(e) => Err(e),
        }
    } else if same(name, "grep") {
        match get_string(fields, "pattern") {
            Ok(pattern) => Ok(
                ToolRequest::Grep {
                    pattern,
                    path: text_field(fields, "path"),
                    max_matches: size_field(fields, "max_matches"),
                },
            ),
            Err(e) => Err(e),
        }
    } else if same(name, "shell") {
        match get_string(fields, "command") {
            Ok(command) => Ok(
                ToolRequest::Shell {
                    command,
                    timeout_ms: natural_field(fields, "timeout_ms"),
                    max_output_bytes: size_field(fields, "max_output_bytes"),
                },
            ),
            Err(e) => Err(e),
        }
    } else {
        Err(CallError::UnknownTool { name: owned(name) })
    }
}

/// The request that a tool call means.
pub fn parse_tool_request(name: &str, arguments: &str) -> (r: Result<ToolRequest, CallError>)
    ensures
        request_result(r) == request_of_read(name@, arguments_fields(arguments@)),
{
    match parse_json_robust(arguments) {
        Ok(fields) => request_from_fields(name, &fields),
        Err(error) => Err(CallError::Arguments { error }),
    }
}

/// The shell command that a call asks for; other tools have none.
pub open spec fn command_of_read(
    name: Seq<char>,
    read: Result<Seq<JsonFieldView>, JsonErrorView>,
) -> Result<Option<Seq<char>>, CallErrorView> {
    if name != "shell"@ {
        Ok(None)
    } else {
        match read {
            Ok(fields) => match needed_text(fields, "command"@) {
                Ok(command) => Ok(Some(command)),
                Err(e) => Err(e),
            },
            Err(error) => Err(CallErrorView::Arguments { error }),
        }
    }
}

/// The shell command that a call asks for; other tools have none.
pub fn shell_command_from_call(name: &str, arguments: &str) -> (r: Result<Option<String>, CallError>)
    ensures
        (match r {
            Ok(command) => Ok::<Option<Seq<char>>, CallErrorView>(opt_view(command)),
            Err(e) => Err(e@),
        }) == command_of_read(name@, arguments_fields(arguments@)),
{
    if !same(name, "shell") {
        return Ok(None);
    }
    match parse_json_robust(arguments) {
        Ok(fields) => match get_string(&fields, "command") {
            Ok(command) => Ok(Some(command)),
            Err(e) => Err(e),
        },
        Err(error) => Err(CallError::Arguments { error }),
    }
}

// ---------------------------------------------------------------------------
// Broken write arguments
// ---------------------------------------------------------------------------

/// What stands between the first and the second `sep`.
pub open spec fn second_part(s: Seq<char>, sep: Seq<char>) -> Option<Seq<char>> {
    match split_first(s, sep) {
        Some((_, rest)) => match split_first(rest, sep) {
            Some((part, _)) => Some(part),
            None => Some(rest),
        },
        None => None,
    }
}

/// The text without the quotes around it, if it has both.
pub open spec fn unquoted(s: Seq<char>) -> Option<Seq<char>> {
    match after_prefix(s, "\""@) {
        Some(rest) => if ends(rest, "\""@) {
            Some(rest.take(rest.len() - "\""@.len()))
        } else {
            None
        },
        None => None,
    }
}

/// What stands before the first comma.
pub open spec fn before_comma(s: Seq<char>) -> Seq<char> {
    match split_first(s, ","@) {
        Some((before, _)) => before,
        None => s,
    }
}

/// The path that broken arguments of a write name, `unknown.txt` where none is found.
pub open spec fn fallback_path(arguments: Seq<char>) -> Seq<char> {
    match second_part(arguments, "\"path\":"@) {
        Some(part) => match unquoted(trimmed(before_comma(part))) {
            Some(path) => path,
            None => "unknown.txt"@,
        },
        None => "unknown.txt"@,
    }
}

/// The smaller of a bound and the position of a text, if it is there.
pub open spec fn cut_at(bound: int, position: Option<int>) -> int {
    match position {
        Some(p) => if p < bound {
            p
        } else {
            bound
        },
        None => bound,
    }
}

/// Where the content of a broken write ends: before the next key, else before the closing
/// quote and brace, else at the end.
pub open spec fn content_end(s: Seq<char>) -> int {
    let end = cut_at(
        cut_at(s.len() as int, find(s, "\", \"overwrite\""@)),
        find(s, "\", \"path\""@),
    );
    if ends(s, "\"}"@) && end == s.len() {
        s.len() - 2
    } else {
        end
    }
}

/// The content that broken arguments of a write hold, nothing where none is found.
pub open spec fn fallback_content(arguments: Seq<char>) -> Seq<char> {
    match second_part(arguments, "\"content\": \""@) {
        Some(part) => part.take(content_end(part)),
        None => Seq::empty(),
    }
}

/// Whether broken arguments of a write ask to overwrite.
pub open spec fn fallback_overwrite(arguments: Seq<char>) -> bool {
    occurs_in(arguments, "\"overwrite\": true"@) || occurs_in(arguments, "\"overwrite\":true"@)
}

fn part_between(s: &str, sep: &str) -> (r: Option<String>)
    ensures
        opt_view(r) == second_part(s@, sep@),
{
    match split_once(s, sep) {
        Some((_, rest)) => match split_once(rest.as_str(), sep) {
            Some((part, _)) => Some(part),
            None => Some(rest),
        },
        None => None,
    }
}

fn unquote(s: &str) -> (r: Option<String>)
    ensures
        opt_view(r) == unquoted(s@),
{
    proof {
        reveal_strlit("\"");
    }
    match strip_prefix(s, "\"") {
        Some(rest) => {
            if ends_with(rest.as_str(), "\"") {
                let v = to_chars(rest.as_str());
                proof {
                    assert(v@.subrange(0, v@.len() - 1) =~= rest@.take(rest@.len() - 1));
                }
                Some(slice_string(&v, 0, v.len() - 1))
            } else {
                None
            }
        },
        None => None,
    }
}

fn smaller_end(bound: usize, position: Option<usize>) -> (r: usize)
    ensures
        r == cut_at(
            bound as int,
            match position {
                Some(p) => Some(p as int),
                None => None,
            },
        ),
        r <= bound,
{
    match position {
        Some(p) => if p < bound {
            p
        } else {
            bound
        },
        None => bound,
    }
}

fn cut_content(part: &str) -> (r: String)
    ensures
        r@ == part@.take(content_end(part@)),
{
    let v = to_chars(part);
    let end: usize = smaller_end(
        smaller_end(v.len(), search(part, "\", \"overwrite\"")),
        search(part, "\", \"path\""),
    );
    proof {
        reveal_strlit("\"}");
    }
    let end: usize = if ends_with(part, "\"}") && end == v.len() {
        v.len() - 2
    } else {
        end
    };
    proof {
        assert(v@.subrange(0, end as int) =~= part@.take(end as int));
    }
    slice_string(&v, 0, end)
}

/// Finds the path, the content and the overwrite flag in arguments of a write that are too
/// broken to parse.
pub fn extract_write_args_fallback(arguments: &str) -> (r: (String, String, bool))
    ensures
        r.0@ == fallback_path(arguments@),
        r.1@ == fallback_content(arguments@),
        r.2 == fallback_overwrite(arguments@),
{
    let path = match part_between(arguments, "\"path\":") {
        Some(part) => {
            let field = match split_once(part.as_str(), ",") {
                Some((before, _)) => before,
                None => part,
            };
            match unquote(trim(field.as_str()).as_str()) {
                Some(path) => path,
                None => owned("unknown.txt"),
            }
        },
        None => owned("unknown.txt"),
    };
    let overwrite = contains(arguments, "\"overwrite\": true") || contains(
        arguments,
        "\"overwrite\":true",
    );
    let content = match part_between(arguments, "\"content\": \"") {
        Some(part) => cut_content(part.as_str()),
        None => String::new(),
    };
    (path, content, overwrite)
}

// ---------------------------------------------------------------------------
// Plans
// ---------------------------------------------------------------------------

/// How many matches a search shows where the call does not say.
pub const DEFAULT_MAX_MATCHES: usize = 50;

/// The answer to a command that would walk the whole file system.
pub const BLOCKED_FIND: &'static str = "⛔ 命令被拦截: 'find /' 会扫描整个文件系统，太慢。\n请改用具体目录: find /home/liuxuem/workspace -name '...' 等";

/// Whether a command would walk the whole file system.
pub open spec fn walks_everything(command: Seq<char>) -> bool {
    &&& command == "find /"@ || begins(command, "find / "@) || occurs_in(command, "| find /"@)
        || occurs_in(
        command,
        "find / -"@,
    )
    &&& !occurs_in(command, "-maxdepth"@)
    &&& !occurs_in(command, "/home"@)
    &&& !occurs_in(command, "/usr"@)
    &&& !occurs_in(command, "/opt"@)
}

/// Whether a command would walk the whole file system.
pub fn is_unbounded_find(command: &str) -> (r: bool)
    ensures
        r == walks_everything(command@),
{
    (same(command, "find /") || starts_with(command, "find / ") || contains(command, "| find /")
        || contains(command, "find / -")) && !contains(command, "-maxdepth") && !contains(
        command,
        "/home",
    ) && !contains(command, "/usr") && !contains(command, "/opt")
}

/// What has to be done for a call of the tool `name`, where its arguments were read as `read`.
pub open spec fn plan_of(
    name: Seq<char>,
    arguments: Seq<char>,
    read: Result<Seq<JsonFieldView>, JsonErrorView>,
) -> Result<ToolPlanView, CallErrorView> {
    if name == "write"@ {
        let request = match request_of_read(name, read) {
            Ok(request) => request,
            Err(_) => ToolRequestView::Write {
                path: fallback_path(arguments),
                content: fallback_content(arguments),
                overwrite: fallback_overwrite(arguments),
            },
        };
        Ok(ToolPlanView::Run { request, context: "tool 'write' execution failed"@ })
    } else if name == "read_pdf"@ || name == "read_docx"@ || name == "read"@ || name == "grep"@
        || name == "shell"@ {
        match read {
            Ok(fields) => direct_plan(name, fields),
            Err(error) => Err(CallErrorView::Arguments { error }),
        }
    } else {
        match request_of_read(name, read) {
            Ok(request) => Ok(
                ToolPlanView::Run { request, context: "tool '"@ + name + "' execution failed"@ },
            ),
            Err(e) => Err(
                CallErrorView::Unfit { name, arguments, reason: call_error_text(e) },
            ),
        }
    }
}

/// How long a command that the model asks for may run where the call does not say.
pub const CALL_TIMEOUT_MS: u64 = 15_000;

/// How long a command that the model asks for may run.
pub open spec fn call_timeout(fields: Seq<JsonFieldView>) -> u64 {
    match field_natural(fields, "timeout_ms"@) {
        Some(timeout_ms) => timeout_ms,
        None => CALL_TIMEOUT_MS,
    }
}

/// How long a command that the model asks for may run.
fn timeout_of_call(fields: &Vec<JsonField>) -> (r: u64)
    ensures
        r == call_timeout(json_field_views(fields@)),
{
    match natural_field(fields, "timeout_ms") {
        Some(timeout_ms) => timeout_ms,
        None => CALL_TIMEOUT_MS,
    }
}

/// What has to be done for a call of a tool that reads its fields itself.
pub open spec fn direct_plan(name: Seq<char>, fields: Seq<JsonFieldView>) -> Result<
    ToolPlanView,
    CallErrorView,
> {
    if name == "grep"@ {
        match needed_text(fields, "pattern"@) {
            Ok(pattern) => Ok(
                ToolPlanView::Search {
                    pattern,
                    root: match field_text(fields, "path"@) {
                        Some(path) => path,
                        None => "."@,
                    },
                    max_matches: match field_size(fields, "max_matches"@) {
                        Some(n) => n,
                        None => DEFAULT_MAX_MATCHES,
                    },
                },
            ),
            Err(e) => Err(e),
        }
    } else if name == "shell"@ {
        match needed_text(fields, "command"@) {
            Ok(command) => if walks_everything(command) {
                Ok(ToolPlanView::Reply { text: BLOCKED_FIND@ })
            } else {
                Ok(
                    ToolPlanView::Run {
                        request: ToolRequestView::Shell {
                            command,
                            timeout_ms: Some(call_timeout(fields)),
                            max_output_bytes: field_size(fields, "max_output_bytes"@),
                        },
                        context: "shell execution failed"@,
                    },
                )
            },
            Err(e) => Err(e),
        }
    } else {
        match needed_text(fields, "path"@) {
            Ok(path) => if name == "read_pdf"@ {
                Ok(ToolPlanView::ReadPdf { path })
            } else if name == "read_docx"@ {
                Ok(ToolPlanView::ReadDocx { path })
            } else {
                Ok(ToolPlanView::ReadFile { path, max_bytes: field_size(fields, "max_bytes"@) })
            },
            Err(e) => Err(e),
        }
    }
}

/// The text of a call error.
pub open spec fn call_error_text(e: CallErrorView) -> Seq<char> {
    match e {
        CallErrorView::Arguments { error } => json_error_text(error),
        CallErrorView::MissingField { key } => "missing or invalid field '"@ + key
            + "' in tool call arguments"@,
        CallErrorView::UnknownTool { name } => "unknown tool: "@ + name,
        CallErrorView::InvalidRegex { pattern, reason } => "invalid regex: "@ + pattern + ": "@
            + reason,
        CallErrorView::Unfit { name, arguments, reason } => "failed to parse arguments for tool '"@
            + name + "': "@ + arguments + ": "@ + reason,
        CallErrorView::Failed { context, reason } => context + ": "@ + reason,
    }
}

impl CallError {
    /// The text of the error.
    pub fn message(&self) -> (r: String)
        ensures
            r@ == call_error_text(self@),
    {
        match self {
            CallError::Arguments { error } => error.message(),
            CallError::MissingField { key } => owned("missing or invalid field '").concat(
                key.as_str(),
            ).concat("' in tool call arguments"),
            CallError::UnknownTool { name } => owned("unknown tool: ").concat(name.as_str()),
            CallError::InvalidRegex { pattern, reason } => owned("invalid regex: ").concat(
                pattern.as_str(),
            ).concat(": ").concat(reason.as_str()),
            CallError::Unfit { name, arguments, reason } => owned(
                "failed to parse arguments for tool '",
            ).concat(name.as_str()).concat("': ").concat(arguments.as_str()).concat(": ").concat(
                reason.as_str(),
            ),
            CallError::Failed { context, reason } => context.clone().concat(": ").concat(
                reason.as_str(),
            ),
        }
    }
}

fn plan_direct(name: &str, fields: &Vec<JsonField>) -> (r: Result<ToolPlan, CallError>)
    ensures
        plan_result(r) == direct_plan(name@, json_field_views(fields@)),
{
    if same(name, "grep") {
        match get_string(fields, "pattern") {
            Ok(pattern) => {
                let root = match text_field(fields, "path") {
                    Some(path) => path,
                    None => owned("."),
                };
                let max_matches: usize = match size_field(fields, "max_matches") {
                    Some(n) => n,
                    None => DEFAULT_MAX_MATCHES,
                };
                Ok(ToolPlan::Search { pattern, root, max_matches })
            },
            Err(e) => Err(e),
        }
    } else if same(name, "shell") {
        match get_string(fields, "command") {
            Ok(command) => {
                if is_unbounded_find(command.as_str()) {
                    return Ok(ToolPlan::Reply { text: owned(BLOCKED_FIND) });
                }
                let request = ToolRequest::Shell {
                    command,
                    timeout_ms: Some(timeout_of_call(fields)),
                    max_output_bytes: size_field(fields, "max_output_bytes"),
                };
                Ok(ToolPlan::Run { request, context: owned("shell execution failed") })
            },
            Err(e) => Err(e),
        }
    } else {
        match get_string(fields, "path") {
            Ok(path) => {
                if same(name, "read_pdf") {
                    Ok(ToolPlan::ReadPdf { path })
                } else if same(name, "read_docx") {
                    Ok(ToolPlan::ReadDocx { path })
                } else {
                    Ok(ToolPlan::ReadFile { path, max_bytes: size_field(fields, "max_bytes") })
                }
            },
            Err(e) => Err(e),
        }
    }
}

/// What has to be done for a call of the tool `name`, where its arguments were read as `read`.
pub fn plan_from_read(
    name: &str,
    arguments: &str,
    read: Result<Vec<JsonField>, JsonError>,
) -> (r: Result<ToolPlan, CallError>)
    ensures
        plan_result(r) == plan_of(name@, arguments@, fields_result(read)),
{
    proof {
        reveal_strlit("write");
        reveal_strlit("read_pdf");
        reveal_strlit("read_docx");
        reveal_strlit("read");
        reveal_strlit("grep");
        reveal_strlit("shell");
    }
    if same(name, "write") {
        let request = match read {
            Ok(fields) => match request_from_fields(name, &fields) {
                Ok(request) => Some(request),
                Err(_) => None,
            },
            Err(_) => None,
        };
        let request = match request {
            Some(request) => request,
            None => {
                let (path, content, overwrite) = extract_write_args_fallback(arguments);
                ToolRequest::Write { path, content, overwrite }
            },
        };
        return Ok(ToolPlan::Run { request, context: owned("tool 'write' execution failed") });
    }
    if same(name, "read_pdf") || same(name, "read_docx") || same(name, "read") || same(
        name,
        "grep",
    ) || same(name, "shell") {
        return match read {
            Ok(fields) => plan_direct(name, &fields),
            Err(error) => Err(CallError::Arguments { error }),
        };
    }
    let request = match read {
        Ok(fields) => request_from_fields(name, &fields),
        Err(error) => Err(CallError::Arguments { error }),
    };
    match request {
        Ok(request) => Ok(
            ToolPlan::Run {
                request,
                context: owned("tool '").concat(name).concat("' execution failed"),
            },
        ),
        Err(e) => Err(
            CallError::Unfit {
                name: owned(name),
                arguments: owned(arguments),
                reason: e.message(),
            },
        ),
    }
}

/// What has to be done for a tool call.
pub fn execute_tool_call(name: &str, arguments: &str) -> (r: Result<ToolPlan, CallError>)
    ensures
        plan_result(r) == plan_of(name@, arguments@, arguments_fields(arguments@)),
{
    plan_from_read(name, arguments, parse_json_robust(arguments))
}

/// Starts the search of a call.
pub fn compile_search(pattern: &str) -> (r: Result<Pattern, CallError>)
    ensures
        match r {
            Ok(compiled) => regex_refusal(pattern@) is None && compiled@ == pattern@,
            Err(e) => regex_refusal(pattern@) is Some && e@ == (CallErrorView::InvalidRegex {
                pattern: pattern@,
                reason: regex_refusal(pattern@)->0,
            }),
        },
{
    match Pattern::new(pattern) {
        Ok(compiled) => Ok(compiled),
        Err(reason) => Err(CallError::InvalidRegex { pattern: owned(pattern), reason }),
    }
}

// ---------------------------------------------------------------------------
// Laws
// ---------------------------------------------------------------------------

/// A call of `write` is always carried out as a write, however broken its arguments are,
/// and a file is only overwritten where the arguments say so.
pub proof fn write_is_always_planned(
    arguments: Seq<char>,
    read: Result<Seq<JsonFieldView>, JsonErrorView>,
)
    ensures
        plan_of("write"@, arguments, read) is Ok,
        plan_of("write"@, arguments, read)->Ok_0 is Run,
        plan_of("write"@, arguments, read)->Ok_0->Run_request is Write,
        plan_of("write"@, arguments, read)->Ok_0->Run_request->Write_overwrite ==> ({
            ||| read is Ok && field_flag(read->Ok_0, "overwrite"@) == Some(true)
            ||| fallback_overwrite(arguments)
        }),
{
    reveal_strlit("write");
    reveal_strlit("read");
    assert("write"@.len() != "read"@.len());
}

/// No plan runs a command that would walk the whole file system.
pub proof fn unbounded_find_never_runs(
    name: Seq<char>,
    arguments: Seq<char>,
    read: Result<Seq<JsonFieldView>, JsonErrorView>,
)
    ensures
        ({
            let plan = plan_of(name, arguments, read);
            plan is Ok && plan->Ok_0 is Run && plan->Ok_0->Run_request is Shell
                ==> !walks_everything(plan->Ok_0->Run_request->Shell_command)
        }),
{
    reveal_strlit("write");
    reveal_strlit("read");
    reveal_strlit("edit");
    reveal_strlit("grep");
    reveal_strlit("shell");
}

/// Only `write`, `edit` and `shell` can run a tool that changes anything.
pub proof fn only_three_tools_change_anything(
    name: Seq<char>,
    arguments: Seq<char>,
    read: Result<Seq<JsonFieldView>, JsonErrorView>,
)
    requires
        name != "write"@,
        name != "edit"@,
        name != "shell"@,
    ensures
        ({
            let plan = plan_of(name, arguments, read);
            !(plan is Ok && plan->Ok_0 is Run)
        }),
{
}

} // verus!
