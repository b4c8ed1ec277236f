//! What the model and the user are told of tools.
use vstd::prelude::*;
use crate::agent::json::{
    arguments_fields, field_text, json_field_views, parse_json_robust, text_field, JsonErrorView,
    JsonField, JsonFieldView,
};
use crate::measure::{byte_len, byte_prefix, text_len, truncate_bytes};
use crate::number::{decimal, render_i32, render_usize, signed_decimal};
use crate::text::{
    contains, join, joined, lemma_views_push, occurs_in, opt_view, owned, same, to_chars, views,
};
use crate::tools::grep::{add_limited, file_matches, GrepTool, Pattern};
use crate::tools::tool::{
    grep_match_views, GrepMatch, GrepMatchView, ToolOutput, ToolOutputView,
};

verus! {

/// A match as one line of text.
pub open spec fn match_line(m: GrepMatchView) -> Seq<char> {
    m.path + ":"@ + decimal(m.line as nat) + ":"@ + decimal(m.column as nat) + ": "@ + m.line_text
}

/// A match as one line of text.
pub fn render_match(m: &GrepMatch) -> (r: String)
    ensures
        r@ == match_line(m@),
{
    m.path.clone().concat(":").concat(render_usize(m.line).as_str()).concat(":").concat(
        render_usize(m.column).as_str(),
    ).concat(": ").concat(m.line_text.as_str())
}

/// Matches as lines of text.
pub open spec fn match_lines(matches: Seq<GrepMatchView>) -> Seq<Seq<char>> {
    Seq::new(matches.len(), |i: int| match_line(matches[i]))
}

fn render_matches(matches: &Vec<GrepMatch>) -> (r: Vec<String>)
    ensures
        views(r@) == match_lines(grep_match_views(matches@)),
{
    let mut r: Vec<String> = Vec::new();
    let mut i: usize = 0;
    let ghost all = match_lines(grep_match_views(matches@));
    while i < matches.len()
        invariant
            i <= matches@.len(),
            all == match_lines(grep_match_views(matches@)),
            views(r@) == all.take(i as int),
        decreases matches.len() - i,
    {
        let line = render_match(&matches[i]);
        proof {
            lemma_views_push(r@, line);
            assert(all.take(i + 1) =~= all.take(i as int).push(line@));
        }
        r.push(line);
        i += 1;
    }
    proof {
        assert(all.take(matches@.len() as int) =~= all);
    }
    r
}

/// What is said of a stream of a command: nothing where it is empty.
pub open spec fn stream_parts(
    label: Seq<char>,
    text: Seq<char>,
    truncated: bool,
    note: Seq<char>,
) -> Seq<Seq<char>> {
    if text.len() == 0 {
        Seq::empty()
    } else if truncated {
        seq![label + text + note]
    } else {
        seq![label + text]
    }
}

/// The exit code of a command as text.
pub open spec fn exit_text(status_code: Option<i32>) -> Seq<char> {
    match status_code {
        Some(c) => signed_decimal(c as int),
        None => "none"@,
    }
}

/// What the model is told of a command.
pub open spec fn shell_parts(
    status_code: Option<i32>,
    stdout: Seq<char>,
    stderr: Seq<char>,
    timed_out: bool,
    stdout_truncated: bool,
    stderr_truncated: bool,
) -> Seq<Seq<char>> {
    let first = if timed_out {
        seq!["Command timed out."@]
    } else {
        Seq::empty()
    };
    first + seq!["Exit code: "@ + exit_text(status_code)] + stream_parts(
        "stdout:\n"@,
        stdout,
        stdout_truncated,
        "\n[stdout truncated]"@,
    ) + stream_parts("stderr:\n"@, stderr, stderr_truncated, "\n[stderr truncated]"@)
}

/// What the model is told of what a tool reports.
pub open spec fn output_text(output: ToolOutputView) -> Seq<char> {
    match output {
        ToolOutputView::Read { path, content, bytes, truncated } => if truncated {
            content + "\n\n[Note: output was truncated]"@
        } else {
            content
        },
        ToolOutputView::Write { path, bytes, created, overwritten } => {
            let action = if created {
                "created"@
            } else if overwritten {
                "overwritten"@
            } else {
                "written"@
            };
            "File "@ + action + ": "@ + path + " ("@ + decimal(bytes as nat) + " bytes)"@
        },
        ToolOutputView::Edit { path, replacements, bytes_before, bytes_after } => "File edited: "@
            + path + " — "@ + decimal(replacements as nat) + " replacement(s), "@ + decimal(
            bytes_before as nat,
        ) + " → "@ + decimal(bytes_after as nat) + " bytes"@,
        ToolOutputView::Grep { matches, truncated } => if matches.len() == 0 {
            "No matches found."@
        } else if truncated {
            joined(match_lines(matches).push("... (results truncated)"@), "\n"@)
        } else {
            joined(match_lines(matches), "\n"@)
        },
        ToolOutputView::Shell {
            status_code,
            stdout,
            stderr,
            timed_out,
            stdout_truncated,
            stderr_truncated,
        } => joined(
            shell_parts(
                status_code,
                stdout,
                stderr,
                timed_out,
                stdout_truncated,
                stderr_truncated,
            ),
            "\n"@,
        ),
    }
}

fn push_stream(
    parts: &mut Vec<String>,
    label: &str,
    text: &str,
    truncated: bool,
    note: &str,
)
    ensures
        views(final(parts)@) == views(old(parts)@) + stream_parts(label@, text@, truncated, note@),
{
    if to_chars(text).len() == 0 {
        proof {
            assert(views(old(parts)@) + Seq::<Seq<char>>::empty() =~= views(old(parts)@));
        }
        return;
    }
    let mut part = owned(label).concat(text);
    if truncated {
        part = part.concat(note);
    }
    proof {
        lemma_views_push(parts@, part);
        assert(views(old(parts)@).push(part@) =~= views(old(parts)@) + seq![part@]);
    }
    parts.push(part);
}

/// What the model is told of what a tool reports.
pub fn format_tool_output(output: &ToolOutput) -> (r: String)
    ensures
        r@ == output_text(output@),
{
    match output {
        ToolOutput::Read { path, content, bytes, truncated } => {
            if *truncated {
                content.clone().concat("\n\n[Note: output was truncated]")
            } else {
                content.clone()
            }
        },
        ToolOutput::Write { path, bytes, created, overwritten } => {
            let action = if *created {
                "created"
            } else if *overwritten {
                "overwritten"
            } else {
                "written"
            };
            owned("File ").concat(action).concat(": ").concat(path.as_str()).concat(" (").concat(
                render_usize(*bytes).as_str(),
            ).concat(" bytes)")
        },
        ToolOutput::Edit { path, replacements, bytes_before, bytes_after } => owned(
            "File edited: ",
        ).concat(path.as_str()).concat(" — ").concat(render_usize(*replacements).as_str()).concat(
            " replacement(s), ",
        ).concat(render_usize(*bytes_before).as_str()).concat(" → ").concat(
            render_usize(*bytes_after).as_str(),
        ).concat(" bytes"),
        ToolOutput::Grep { matches, truncated } => {
            proof {
                assert(grep_match_views(matches@).len() == matches@.len());
            }
            if matches.len() == 0 {
                return owned("No matches found.");
            }
            let mut lines = render_matches(matches);
            if *truncated {
                let note = owned("... (results truncated)");
                proof {
                    lemma_views_push(lines@, note);
                }
                lines.push(note);
            }
            join(&lines, "\n")
        },
        ToolOutput::Shell {
            status_code,
            stdout,
            stderr,
            timed_out,
            stdout_truncated,
            stderr_truncated,
        } => {
            let mut parts: Vec<String> = Vec::new();
            if *timed_out {
                parts.push(owned("Command timed out."));
            }
            let exit = match status_code {
                Some(c) => render_i32(*c),
                None => owned("none"),
            };
            let ghost first = views(parts@);
            proof {
                assert(first =~= if *timed_out {
                    seq!["Command timed out."@]
                } else {
                    Seq::empty()
                });
            }
            let line = owned("Exit code: ").concat(exit.as_str());
            proof {
                lemma_views_push(parts@, line);
                assert(first.push(line@) =~= first + seq![line@]);
            }
            parts.push(line);
            push_stream(
                &mut parts,
                "stdout:\n",
                stdout.as_str(),
                *stdout_truncated,
                "\n[stdout truncated]",
            );
            push_stream(
                &mut parts,
                "stderr:\n",
                stderr.as_str(),
                *stderr_truncated,
                "\n[stderr truncated]",
            );
            join(&parts, "\n")
        },
    }
}

// ---------------------------------------------------------------------------
// Files read directly
// ---------------------------------------------------------------------------

/// How many bytes of a document the model is shown.
pub const MAX_PREVIEW_BYTES: usize = 3000;

/// What the model is shown of a document.
pub open spec fn preview_text(text: Seq<char>, kind: Seq<char>) -> Seq<char> {
    if byte_len(text) <= MAX_PREVIEW_BYTES {
        text
    } else {
        byte_prefix(text, MAX_PREVIEW_BYTES as nat) + "...\n\n["@ + kind + " text extracted, "@
            + decimal(byte_len(text)) + " total chars]"@
    }
}

/// What the model is shown of a document.
pub fn format_preview(text: &str, kind: &str) -> (r: String)
    ensures
        r@ == preview_text(text@, kind@),
{
    let bytes: usize = text_len(text);
    if bytes <= MAX_PREVIEW_BYTES {
        return owned(text);
    }
    truncate_bytes(text, MAX_PREVIEW_BYTES).concat("...\n\n[").concat(kind).concat(
        " text extracted, ",
    ).concat(render_usize(bytes).as_str()).concat(" total chars]")
}

/// What the model is shown of a file, cut to `max_bytes`.
pub open spec fn file_text(content: Seq<char>, max_bytes: Option<usize>) -> Seq<char> {
    match max_bytes {
        Some(max) => if byte_len(content) > max {
            byte_prefix(content, max as nat) + "...\n\n[truncated at "@ + decimal(max as nat)
                + " bytes]"@
        } else {
            content
        },
        None => content,
    }
}

/// What the model is shown of a file, cut to `max_bytes`.
pub fn format_file(content: &str, max_bytes: Option<usize>) -> (r: String)
    ensures
        r@ == file_text(content@, max_bytes),
{
    match max_bytes {
        Some(max) => {
            if text_len(content) > max {
                truncate_bytes(content, max).concat("...\n\n[truncated at ").concat(
                    render_usize(max).as_str(),
                ).concat(" bytes]")
            } else {
                owned(content)
            }
        },
        None => owned(content),
    }
}

/// How many files of a directory a hint names.
pub const MAX_HINTED_FILES: usize = 20;

/// What the model is told of a file that does not exist, where `listing` is what the
/// directory holds, if it could be read.
pub open spec fn missing_file_text(
    path: Seq<char>,
    parent: Seq<char>,
    listing: Option<Seq<Seq<char>>>,
) -> Seq<char> {
    let first = "文件不存在: "@ + path;
    let last = "用 shell ls 或 find 先确认文件位置。"@;
    let parts = match listing {
        Some(files) => {
            let shown = if files.len() > MAX_HINTED_FILES {
                files.take(MAX_HINTED_FILES as int)
            } else {
                files
            };
            seq![first, "目录 '"@ + parent + "' 下的文件: "@ + joined(shown, ", "@), last]
        },
        None => seq![first, last],
    };
    joined(parts, "\n"@)
}

/// What the model is told of a file that does not exist.
pub fn missing_file_hint(path: &str, parent: &str, listing: Option<Vec<String>>) -> (r: String)
    ensures
        r@ == missing_file_text(
            path@,
            parent@,
            match listing {
                Some(files) => Some(views(files@)),
                None => None,
            },
        ),
{
    let mut parts: Vec<String> = Vec::new();
    let first = owned("文件不存在: ").concat(path);
    let last = owned("用 shell ls 或 find 先确认文件位置。");
    match listing {
        Some(files) => {
            let mut files = files;
            proof {
                assert(views(files@).len() == files@.len());
            }
            let ghost all = views(files@);
            if files.len() > MAX_HINTED_FILES {
                files.truncate(MAX_HINTED_FILES);
                proof {
                    assert(views(files@) =~= all.take(MAX_HINTED_FILES as int));
                }
            }
            let list = owned("目录 '").concat(parent).concat("' 下的文件: ").concat(
                join(&files, ", ").as_str(),
            );
            proof {
                let goal = seq![first@, list@, last@];
                assert(views(parts@.push(first).push(list).push(last)) =~= goal);
            }
            parts.push(first);
            parts.push(list);
            parts.push(last);
        },
        None => {
            proof {
                assert(views(parts@.push(first).push(last)) =~= seq![first@, last@]);
            }
            parts.push(first);
            parts.push(last);
        },
    }
    join(&parts, "\n")
}

/// Why a file could not be read, as the model is told it: where it is missing, with what
/// stands beside it, else with the reason of the system.
pub open spec fn read_failure_text(
    path: Seq<char>,
    is_there: bool,
    reason: Seq<char>,
    parent: Seq<char>,
    listing: Option<Seq<Seq<char>>>,
) -> Seq<char> {
    if is_there {
        reason
    } else {
        missing_file_text(path, parent, listing)
    }
}

/// Why a file could not be read, as the model is told it.
pub fn explain_read_failure(
    path: &str,
    is_there: bool,
    reason: String,
    parent: &str,
    listing: Option<Vec<String>>,
) -> (r: String)
    ensures
        r@ == read_failure_text(
            path@,
            is_there,
            reason@,
            parent@,
            match listing {
                Some(files) => Some(views(files@)),
                None => None,
            },
        ),
{
    if is_there {
        reason
    } else {
        missing_file_hint(path, parent, listing)
    }
}

/// How many directories deep a search goes.
pub const MAX_SEARCH_DEPTH: usize = 10;

/// Whether a search passes a file over: what version control and builds keep.
pub open spec fn is_skipped(path: Seq<char>) -> bool {
    occurs_in(path, "/.git/"@) || occurs_in(path, "/target/"@)
}

/// Whether a search passes a file over.
pub fn skips_file(path: &str) -> (r: bool)
    ensures
        r == is_skipped(path@),
{
    contains(path, "/.git/") || contains(path, "/target/")
}

/// Adds the matches of one file to `results` until there are `max_matches`, and says
/// whether there are.
pub fn search_file(
    path: &str,
    content: &str,
    pattern: &Pattern,
    max_matches: usize,
    results: &mut Vec<GrepMatch>,
) -> (reached: bool)
    ensures
        grep_match_views(final(results)@) == add_limited(
            grep_match_views(old(results)@),
            file_matches(path@, content@, pattern@),
            Some(max_matches),
        ).0,
        reached == (final(results)@.len() >= max_matches),
{
    let tool = GrepTool;
    let _ = tool.search_content(path, content, pattern, Some(max_matches), results);
    results.len() >= max_matches
}

/// What the model is told of a search.
pub open spec fn search_text(results: Seq<GrepMatchView>) -> Seq<char> {
    if results.len() == 0 {
        "No matches found."@
    } else {
        joined(match_lines(results), "\n"@)
    }
}

/// What the model is told of a search.
pub fn format_search(results: &Vec<GrepMatch>) -> (r: String)
    ensures
        r@ == search_text(grep_match_views(results@)),
{
    proof {
        assert(grep_match_views(results@).len() == results@.len());
    }
    if results.len() == 0 {
        owned("No matches found.")
    } else {
        join(&render_matches(results), "\n")
    }
}

// ---------------------------------------------------------------------------
// Notices
// ---------------------------------------------------------------------------

/// What a call gives as its subject, `?` where it gives none.
pub open spec fn subject(fields: Seq<JsonFieldView>, key: Seq<char>) -> Seq<char> {
    match field_text(fields, key) {
        Some(value) => value,
        None => "?"@,
    }
}

/// What the user is told that a call does.
pub open spec fn description_of(name: Seq<char>, fields: Seq<JsonFieldView>) -> Seq<char> {
    if name == "read"@ {
        "读取 "@ + subject(fields, "path"@)
    } else if name == "read_pdf"@ {
        "提取PDF "@ + subject(fields, "path"@)
    } else if name == "read_docx"@ {
        "提取DOCX "@ + subject(fields, "path"@)
    } else if name == "write"@ {
        "写入 "@ + subject(fields, "path"@)
    } else if name == "edit"@ {
        "编辑 "@ + subject(fields, "path"@)
    } else if name == "grep"@ {
        "搜索 \""@ + subject(fields, "pattern"@) + "\""@
    } else if name == "shell"@ {
        "执行 "@ + subject(fields, "command"@)
    } else {
        "调用 "@ + name
    }
}

fn subject_or_mark(fields: &Vec<JsonField>, key: &str) -> (r: String)
    ensures
        r@ == subject(json_field_views(fields@), key@),
{
    match text_field(fields, key) {
        Some(value) => value,
        None => owned("?"),
    }
}

/// What the user is told that a call with these fields does.
pub fn describe_fields(name: &str, fields: &Vec<JsonField>) -> (r: String)
    ensures
        r@ == description_of(name@, json_field_views(fields@)),
{
    if same(name, "read") {
        owned("读取 ").concat(subject_or_mark(fields, "path").as_str())
    } else if same(name, "read_pdf") {
        owned("提取PDF ").concat(subject_or_mark(fields, "path").as_str())
    } else if same(name, "read_docx") {
        owned("提取DOCX ").concat(subject_or_mark(fields, "path").as_str())
    } else if same(name, "write") {
        owned("写入 ").concat(subject_or_mark(fields, "path").as_str())
    } else if same(name, "edit") {
        owned("编辑 ").concat(subject_or_mark(fields, "path").as_str())
    } else if same(name, "grep") {
        owned("搜索 \"").concat(subject_or_mark(fields, "pattern").as_str()).concat("\"")
    } else if same(name, "shell") {
        owned("执行 ").concat(subject_or_mark(fields, "command").as_str())
    } else {
        owned("调用 ").concat(name)
    }
}

/// The fields that arguments were read as, none where they could not be read.
pub open spec fn fields_or_none(read: Result<Seq<JsonFieldView>, JsonErrorView>) -> Seq<
    JsonFieldView,
> {
    match read {
        Ok(fields) => fields,
        Err(_) => Seq::empty(),
    }
}

/// What the user is told that a call does.
pub fn tool_description(name: &str, arguments: &str) -> (r: String)
    ensures
        r@ == description_of(name@, fields_or_none(arguments_fields(arguments@))),
{
    match parse_json_robust(arguments) {
        Ok(fields) => describe_fields(name, &fields),
        Err(_) => {
            let none: Vec<JsonField> = Vec::new();
            proof {
                assert(json_field_views(none@) =~= Seq::empty());
            }
            describe_fields(name, &none)
        },
    }
}

/// How many bytes of a result a notice shows for a tool that changed a file.
pub const MAX_CHANGE_NOTICE_BYTES: usize = 80;

/// How many bytes of a result a notice shows for another tool.
pub const MAX_NOTICE_BYTES: usize = 100;

/// What the user is told once a tool is done, where `last_id` is the latest record.
pub open spec fn done_text(
    name: Seq<char>,
    result: Seq<char>,
    last_id: Option<Seq<char>>,
) -> Seq<char> {
    if name == "write"@ || name == "edit"@ {
        byte_prefix(result, MAX_CHANGE_NOTICE_BYTES as nat) + "  ↩️ /rollback apply "@
            + match last_id {
            Some(id) => id,
            None => "?"@,
        }
    } else if byte_len(result) > MAX_NOTICE_BYTES {
        byte_prefix(result, MAX_NOTICE_BYTES as nat) + "..."@
    } else {
        result
    }
}

/// What the user is told once a tool is done, where `last_id` is the latest record.
pub fn tool_done_message(name: &str, result: &str, last_id: &Option<String>) -> (r: String)
    ensures
        r@ == done_text(name@, result@, opt_view(*last_id)),
{
    if same(name, "write") || same(name, "edit") {
        let id = match last_id {
            Some(id) => id.clone(),
            None => owned("?"),
        };
        truncate_bytes(result, MAX_CHANGE_NOTICE_BYTES).concat("  ↩️ /rollback apply ").concat(
            id.as_str(),
        )
    } else if text_len(result) > MAX_NOTICE_BYTES {
        truncate_bytes(result, MAX_NOTICE_BYTES).concat("...")
    } else {
        owned(result)
    }
}

/// What the model is told of a tool that failed.
pub open spec fn failure_text(reason: Seq<char>) -> Seq<char> {
    "❌ 工具执行失败: "@ + reason + "\n请根据错误信息调整后重试。"@
}

/// What the model is told of a tool that failed.
pub fn format_failure(reason: &str) -> (r: String)
    ensures
        r@ == failure_text(reason@),
{
    owned("❌ 工具执行失败: ").concat(reason).concat("\n请根据错误信息调整后重试。")
}

} // verus!
