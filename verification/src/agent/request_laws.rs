//! What holds of every tool call.
use vstd::prelude::*;
use crate::agent::json::{
    field_flag, field_natural, field_size, field_text, JsonErrorView, JsonFieldView,
};
use crate::agent::request::{
    call_error_text, command_of_read, fallback_content, fallback_overwrite, fallback_path, plan_of,
    request_of_read, walks_everything, CallErrorView, ToolPlanView,
};
use crate::text::{ends, find, lemma_find_from, occurs_at, occurs_in, split_first};
use crate::text_laws::{all_space, ascii_spaces, space_around_is_cut};
use crate::tools::tool::ToolRequestView;

verus! {

/// A call of `read`, `read_pdf` or `read_docx` reads the file that its path names, and
/// fails where it names none.
pub proof fn reads_read_the_named_file(arguments: Seq<char>, fields: Seq<JsonFieldView>)
    ensures
        match field_text(fields, "path"@) {
            Some(path) => {
                &&& plan_of("read"@, arguments, Ok(fields)) == Ok::<ToolPlanView, CallErrorView>(
                    ToolPlanView::ReadFile { path, max_bytes: field_size(fields, "max_bytes"@) },
                )
                &&& plan_of("read_pdf"@, arguments, Ok(fields)) == Ok::<
                    ToolPlanView,
                    CallErrorView,
                >(ToolPlanView::ReadPdf { path })
                &&& plan_of("read_docx"@, arguments, Ok(fields)) == Ok::<
                    ToolPlanView,
                    CallErrorView,
                >(ToolPlanView::ReadDocx { path })
            },
            None => forall|name: Seq<char>|
                name == "read"@ || name == "read_pdf"@ || name == "read_docx"@
                    ==> #[trigger] plan_of(name, arguments, Ok(fields)) == Err::<
                    ToolPlanView,
                    CallErrorView,
                >(CallErrorView::MissingField { key: "path"@ }),
        },
{
    lemma_names_differ();
}

/// A call of `grep` searches for its pattern, in the workspace itself and for fifty matches
/// where it does not say otherwise.
pub proof fn searches_look_for_the_pattern(arguments: Seq<char>, fields: Seq<JsonFieldView>)
    ensures
        match field_text(fields, "pattern"@) {
            Some(pattern) => {
                let plan = plan_of("grep"@, arguments, Ok(fields));
                &&& plan is Ok
                &&& plan->Ok_0 is Search
                &&& plan->Ok_0->Search_pattern == pattern
                &&& plan->Ok_0->Search_root == match field_text(fields, "path"@) {
                    Some(path) => path,
                    None => "."@,
                }
                &&& plan->Ok_0->Search_max_matches == match field_size(fields, "max_matches"@) {
                    Some(n) => n,
                    None => 50,
                }
            },
            None => plan_of("grep"@, arguments, Ok(fields)) == Err::<ToolPlanView, CallErrorView>(
                CallErrorView::MissingField { key: "pattern"@ },
            ),
        },
{
    lemma_names_differ();
}

/// A call of `shell` runs its command as it stands, for fifteen seconds where it does not
/// say otherwise, unless the command would walk the whole file system.
pub proof fn shells_run_the_command(arguments: Seq<char>, fields: Seq<JsonFieldView>)
    ensures
        match field_text(fields, "command"@) {
            Some(command) => {
                let plan = plan_of("shell"@, arguments, Ok(fields));
                &&& command_of_read("shell"@, Ok(fields)) == Ok::<
                    Option<Seq<char>>,
                    CallErrorView,
                >(Some(command))
                &&& plan is Ok
                &&& walks_everything(command) ==> plan->Ok_0 is Reply
                &&& !walks_everything(command) ==> plan->Ok_0 == (ToolPlanView::Run {
                    request: ToolRequestView::Shell {
                        command,
                        timeout_ms: Some(
                            match field_natural(fields, "timeout_ms"@) {
                                Some(timeout) => timeout,
                                None => 15_000,
                            },
                        ),
                        max_output_bytes: field_size(fields, "max_output_bytes"@),
                    },
                    context: "shell execution failed"@,
                })
            },
            None => {
                let missing = CallErrorView::MissingField { key: "command"@ };
                &&& plan_of("shell"@, arguments, Ok(fields)) == Err::<ToolPlanView, CallErrorView>(
                    missing,
                )
                &&& command_of_read("shell"@, Ok(fields)) == Err::<
                    Option<Seq<char>>,
                    CallErrorView,
                >(missing)
            },
        },
{
    lemma_names_differ();
}

/// Only a call of `shell` has a command.
pub proof fn other_tools_have_no_command(
    name: Seq<char>,
    read: Result<Seq<JsonFieldView>, JsonErrorView>,
)
    requires
        name != "shell"@,
    ensures
        command_of_read(name, read) == Ok::<Option<Seq<char>>, CallErrorView>(None),
{
}

/// A call of `write` writes the content it gives to the path it gives, and replaces a file
/// only where it says so.
pub proof fn writes_write_the_content(
    arguments: Seq<char>,
    fields: Seq<JsonFieldView>,
    path: Seq<char>,
    content: Seq<char>,
)
    requires
        field_text(fields, "path"@) == Some(path),
        field_text(fields, "content"@) == Some(content),
    ensures
        plan_of("write"@, arguments, Ok(fields)) == Ok::<ToolPlanView, CallErrorView>(
            ToolPlanView::Run {
                request: ToolRequestView::Write {
                    path,
                    content,
                    overwrite: field_flag(fields, "overwrite"@) == Some(true),
                },
                context: "tool 'write' execution failed"@,
            },
        ),
        request_of_read("write"@, Ok(fields)) == Ok::<ToolRequestView, CallErrorView>(
            ToolRequestView::Write {
                path,
                content,
                overwrite: field_flag(fields, "overwrite"@) == Some(true),
            },
        ),
{
    lemma_names_differ();
}

/// A call of `edit` puts its new text in the place of its old one, and has to give both and
/// the path; the first that is missing is named.
pub proof fn edits_replace_old_by_new(arguments: Seq<char>, fields: Seq<JsonFieldView>)
    ensures
        ({
            let path = field_text(fields, "path"@);
            let before = field_text(fields, "old"@);
            let after = field_text(fields, "new"@);
            let missing = if path is None {
                "path"@
            } else if before is None {
                "old"@
            } else {
                "new"@
            };
            plan_of("edit"@, arguments, Ok(fields)) == if path is Some && before is Some
                && after is Some {
                Ok::<ToolPlanView, CallErrorView>(
                    ToolPlanView::Run {
                        request: ToolRequestView::Edit {
                            path: path->0,
                            old: before->0,
                            new: after->0,
                        },
                        context: "tool '"@ + "edit"@ + "' execution failed"@,
                    },
                )
            } else {
                Err(
                    CallErrorView::Unfit {
                        name: "edit"@,
                        arguments,
                        reason: "missing or invalid field '"@ + missing
                            + "' in tool call arguments"@,
                    },
                )
            }
        }),
{
    lemma_names_differ();
}

/// A tool of any other name is unknown, whatever its arguments are.
pub proof fn other_tools_are_unknown(
    name: Seq<char>,
    arguments: Seq<char>,
    fields: Seq<JsonFieldView>,
)
    requires
        name != "read"@,
        name != "read_pdf"@,
        name != "read_docx"@,
        name != "write"@,
        name != "edit"@,
        name != "grep"@,
        name != "shell"@,
    ensures
        plan_of(name, arguments, Ok(fields)) == Err::<ToolPlanView, CallErrorView>(
            CallErrorView::Unfit { name, arguments, reason: "unknown tool: "@ + name },
        ),
{
}

/// Arguments that cannot be read are an error for every tool but `write`.
pub proof fn unread_arguments_are_refused(
    name: Seq<char>,
    arguments: Seq<char>,
    error: JsonErrorView,
)
    requires
        name != "write"@,
    ensures
        ({
            let plan = plan_of(name, arguments, Err(error));
            &&& plan is Err
            &&& plan->Err_0 is Arguments ==> plan->Err_0->Arguments_error == error
            &&& !(plan->Err_0 is Arguments) ==> plan->Err_0 == (CallErrorView::Unfit {
                name,
                arguments,
                reason: call_error_text(CallErrorView::Arguments { error }),
            })
        }),
{
}

proof fn lemma_names_differ()
    ensures
        "write"@ != "read"@,
        "write"@ != "grep"@,
        "write"@ != "edit"@,
        "shell"@ != "read"@,
        "shell"@ != "grep"@,
        "shell"@ != "edit"@,
        "shell"@ != "write"@,
        "read"@ != "grep"@,
        "read"@ != "edit"@,
        "grep"@ != "edit"@,
        "read_pdf"@.len() == 8,
        "read_docx"@.len() == 9,
        "read"@.len() == 4,
        "edit"@.len() == 4,
        "grep"@.len() == 4,
        "write"@.len() == 5,
        "shell"@.len() == 5,
{
    reveal_strlit("write");
    reveal_strlit("read_pdf");
    reveal_strlit("read_docx");
    reveal_strlit("read");
    reveal_strlit("grep");
    reveal_strlit("edit");
    reveal_strlit("shell");
    assert("write"@[0] == 'w' && "shell"@[0] == 's');
    assert("read"@[0] == 'r' && "grep"@[0] == 'g' && "edit"@[0] == 'e');
}

// ---------------------------------------------------------------------------
// Broken write arguments
// ---------------------------------------------------------------------------

proof fn lemma_found(s: Seq<char>, needle: Seq<char>, at: int)
    requires
        occurs_at(s, needle, at),
        forall|i: int| 0 <= i < at ==> !#[trigger] occurs_at(s, needle, i),
    ensures
        find(s, needle) == Some(at),
{
    lemma_find_from(s, needle, 0);
}

proof fn lemma_split(lead: Seq<char>, sep: Seq<char>, tail: Seq<char>)
    requires
        forall|i: int| 0 <= i < lead.len() ==> !#[trigger] occurs_at(lead + sep + tail, sep, i),
    ensures
        split_first(lead + sep + tail, sep) == Some((lead, tail)),
{
    let s = lead + sep + tail;
    assert(s.subrange(lead.len() as int, (lead.len() + sep.len()) as int) =~= sep);
    lemma_found(s, sep, lead.len() as int);
    assert(s.take(lead.len() as int) =~= lead);
    assert(s.skip((lead.len() + sep.len()) as int) =~= tail);
}

/// Whether a text stands in `lead + sep + tail` first behind `lead`, and not once more
/// behind that.
pub open spec fn stands_once(lead: Seq<char>, sep: Seq<char>, tail: Seq<char>) -> bool {
    &&& forall|i: int| 0 <= i < lead.len() ==> !#[trigger] occurs_at(lead + sep + tail, sep, i)
    &&& !occurs_in(tail, sep)
}

/// However broken the arguments of a write are, the path in quotes behind its key is found,
/// with white space around it or not.
pub proof fn broken_writes_keep_their_path(
    lead: Seq<char>,
    gap: Seq<char>,
    path: Seq<char>,
    gap_after: Seq<char>,
    rest: Seq<char>,
)
    requires
        all_space(gap),
        all_space(gap_after),
        !path.contains(','),
        stands_once(
            lead,
            "\"path\":"@,
            (gap + (seq!['"'] + path + seq!['"']) + gap_after) + seq![','] + rest,
        ),
    ensures
        fallback_path(
            lead + "\"path\":"@ + ((gap + (seq!['"'] + path + seq!['"']) + gap_after) + seq![',']
                + rest),
        ) == path,
{
    let quoted = seq!['"'] + path + seq!['"'];
    let part = gap + quoted + gap_after;
    let tail = part + seq![','] + rest;
    reveal_strlit(",");
    reveal_strlit("\"");
    assert(","@ =~= seq![',']);
    assert("\""@ =~= seq!['"']);
    lemma_split(lead, "\"path\":"@, tail);
    lemma_find_from(tail, "\"path\":"@, 0);
    assert forall|i: int| 0 <= i < part.len() implies !#[trigger] occurs_at(tail, seq![','], i) by {
        assert(tail[i] == part[i]);
        if occurs_at(tail, seq![','], i) {
            assert(tail.subrange(i, i + 1)[0] == tail[i]);
            if i < gap.len() {
                assert(part[i] == gap[i]);
                ascii_spaces(gap[i]);
            } else if i < gap.len() + quoted.len() {
                let k = i - gap.len();
                assert(part[i] == quoted[k]);
                if 0 < k <= path.len() {
                    assert(quoted[k] == path[k - 1]);
                }
            } else {
                let k = i - gap.len() - quoted.len();
                assert(part[i] == gap_after[k]);
                ascii_spaces(gap_after[k]);
            }
        }
    }
    lemma_split(part, seq![','], rest);
    ascii_spaces('"');
    space_around_is_cut(gap, quoted, gap_after);
    let inner = path + seq!['"'];
    assert(quoted.take(1) =~= seq!['"']);
    assert(quoted.skip(1) =~= inner);
    assert(inner.skip(path.len() as int) =~= seq!['"']);
    assert(inner.take(path.len() as int) =~= path);
}

/// However broken the arguments of a write are, the content behind its key is found, up to
/// the next key or to the quote and brace that end the object.
pub proof fn broken_writes_keep_their_content(
    lead: Seq<char>,
    content: Seq<char>,
    ending: Seq<char>,
    rest: Seq<char>,
)
    requires
        stands_once(lead, "\"content\": \""@, content + ending + rest),
        ending == "\", \"overwrite\""@ || ending == "\", \"path\""@ || (ending == "\"}"@
            && rest.len() == 0),
        forall|i: int|
            #![auto]
            0 <= i < content.len() ==> !occurs_at(
                content + ending + rest,
                "\", \"overwrite\""@,
                i,
            ) && !occurs_at(content + ending + rest, "\", \"path\""@, i),
    ensures
        fallback_content(lead + "\"content\": \""@ + (content + ending + rest)) == content,
{
    let tail = content + ending + rest;
    let at = content.len() as int;
    reveal_strlit("\", \"overwrite\"");
    reveal_strlit("\", \"path\"");
    reveal_strlit("\"}");
    lemma_split(lead, "\"content\": \""@, tail);
    lemma_find_from(tail, "\"content\": \""@, 0);
    lemma_find_from(tail, "\", \"overwrite\""@, 0);
    lemma_find_from(tail, "\", \"path\""@, 0);
    assert(tail.subrange(at, at + ending.len()) =~= ending);
    assert(tail.take(at) =~= content);
    if ending == "\"}"@ {
        assert(tail.skip(at) =~= ending);
        assert forall|i: int| at <= i implies !occurs_at(tail, "\", \"overwrite\""@, i)
            && !occurs_at(tail, "\", \"path\""@, i) by {}
    } else {
        assert(occurs_at(tail, ending, at));
    }
}

/// Broken arguments of a write ask to overwrite exactly where they set the flag, with or
/// without a space.
pub proof fn broken_writes_overwrite_on_demand(arguments: Seq<char>)
    ensures
        fallback_overwrite(arguments) <==> exists|i: int|
            occurs_at(arguments, "\"overwrite\": true"@, i) || occurs_at(
                arguments,
                "\"overwrite\":true"@,
                i,
            ),
{
    if occurs_in(arguments, "\"overwrite\": true"@) {
        let i = choose|i: int| occurs_at(arguments, "\"overwrite\": true"@, i);
        assert(occurs_at(arguments, "\"overwrite\": true"@, i) || occurs_at(
            arguments,
            "\"overwrite\":true"@,
            i,
        ));
    }
    if occurs_in(arguments, "\"overwrite\":true"@) {
        let i = choose|i: int| occurs_at(arguments, "\"overwrite\":true"@, i);
        assert(occurs_at(arguments, "\"overwrite\": true"@, i) || occurs_at(
            arguments,
            "\"overwrite\":true"@,
            i,
        ));
    }
}

/// Arguments that name no path and no content write an empty file of a stock name.
pub proof fn broken_writes_without_keys_have_defaults(arguments: Seq<char>)
    ensures
        !occurs_in(arguments, "\"path\":"@) ==> fallback_path(arguments) == "unknown.txt"@,
        !occurs_in(arguments, "\"content\": \""@) ==> fallback_content(arguments).len() == 0,
{
    lemma_find_from(arguments, "\"path\":"@, 0);
    lemma_find_from(arguments, "\"content\": \""@, 0);
}

/// A search that starts at the root, alone or behind a pipe, and names neither a depth nor
/// one of the usual directories walks the whole file system.
pub proof fn searches_from_the_root_walk_everything(lead: Seq<char>, more: Seq<char>)
    requires
        lead.len() == 0 || ends(lead, "| "@),
        !occurs_in(lead + "find / "@ + more, "-maxdepth"@),
        !occurs_in(lead + "find / "@ + more, "/home"@),
        !occurs_in(lead + "find / "@ + more, "/usr"@),
        !occurs_in(lead + "find / "@ + more, "/opt"@),
    ensures
        walks_everything(lead + "find / "@ + more),
{
    let command = lead + "find / "@ + more;
    reveal_strlit("find / ");
    reveal_strlit("| find /");
    reveal_strlit("| ");
    if lead.len() == 0 {
        assert(command.take(7) =~= "find / "@);
    } else {
        let at = lead.len() - 2;
        assert(lead.skip(at) == "| "@);
        assert(lead.skip(at)[0] == lead[at] && lead.skip(at)[1] == lead[at + 1]);
        assert(command.subrange(at, at + 8) =~= "| find /"@);
        assert(occurs_at(command, "| find /"@, at));
    }
}

/// A command that nowhere searches from the root runs.
pub proof fn other_commands_walk_something(command: Seq<char>)
    requires
        !occurs_in(command, "find /"@),
    ensures
        !walks_everything(command),
{
    reveal_strlit("find /");
    reveal_strlit("find / ");
    reveal_strlit("| find /");
    reveal_strlit("find / -");
    if command == "find /"@ {
        assert(command.subrange(0, 6) =~= "find /"@);
        assert(occurs_at(command, "find /"@, 0));
    }
    if command.len() >= 7 && command.take(7) == "find / "@ {
        assert(command.subrange(0, 6) =~= "find /"@) by {
            assert forall|k: int| 0 <= k < 6 implies command[k] == "find /"@[k] by {
                assert(command.take(7)[k] == command[k]);
            }
        }
        assert(occurs_at(command, "find /"@, 0));
    }
    if occurs_in(command, "| find /"@) {
        let i = choose|i: int| occurs_at(command, "| find /"@, i);
        assert(command.subrange(i + 2, i + 8) =~= command.subrange(i, i + 8).subrange(2, 8));
        assert("| find /"@.subrange(2, 8) =~= "find /"@);
        assert(occurs_at(command, "find /"@, i + 2));
    }
    if occurs_in(command, "find / -"@) {
        let i = choose|i: int| occurs_at(command, "find / -"@, i);
        assert(command.subrange(i, i + 6) =~= command.subrange(i, i + 8).subrange(0, 6));
        assert("find / -"@.subrange(0, 6) =~= "find /"@);
        assert(occurs_at(command, "find /"@, i));
    }
}

/// An error names what it is about: the field, the tool, the pattern or the arguments.
pub proof fn errors_name_their_cause(e: CallErrorView)
    ensures
        match e {
            CallErrorView::MissingField { key } => call_error_text(e)
                == "missing or invalid field '"@ + key + "' in tool call arguments"@,
            CallErrorView::UnknownTool { name } => call_error_text(e) == "unknown tool: "@ + name,
            CallErrorView::InvalidRegex { pattern, reason } => call_error_text(e)
                == "invalid regex: "@ + (pattern + ": "@ + reason),
            CallErrorView::Unfit { name, arguments, reason } => call_error_text(e)
                == "failed to parse arguments for tool '"@ + name + "': "@ + (arguments + ": "@
                + reason),
            CallErrorView::Failed { context, reason } => call_error_text(e) == context + ": "@
                + reason,
            CallErrorView::Arguments { error } => call_error_text(e) == match error {
                JsonErrorView::BadObject { part } => "failed to parse extracted JSON: "@ + part,
                JsonErrorView::NoObject { text } => "no valid JSON object found in: "@ + text,
            },
        },
{
    match e {
        CallErrorView::InvalidRegex { pattern, reason } => {
            assert("invalid regex: "@ + pattern + ": "@ + reason =~= "invalid regex: "@ + (pattern
                + ": "@ + reason));
        },
        CallErrorView::Unfit { name, arguments, reason } => {
            let first = "failed to parse arguments for tool '"@ + name + "': "@;
            assert(first + arguments + ": "@ + reason =~= first + (arguments + ": "@ + reason));
        },
        _ => {},
    }
}

} // verus!
