//! What holds of everything that is told of tools.
use vstd::prelude::*;
use crate::agent::json::{field_text, JsonFieldView};
use crate::agent::output::{
    description_of, done_text, failure_text, file_text, is_skipped, match_lines, missing_file_text,
    output_text, preview_text, read_failure_text, search_text,
};
use crate::measure::{byte_len, byte_prefix, fitting, lemma_byte_prefix_is_longest};
use crate::number::{decimal, signed_decimal};
use crate::text::{joined, occurs_at};
use crate::text_laws::joining_joins_joined;
use crate::tools::tool::{GrepMatchView, ToolOutputView};

verus! {

/// What a match is on its line: the file, the line and the column, then the text of the line.
pub open spec fn listed_match(m: GrepMatchView) -> Seq<char> {
    m.path + ":"@ + (decimal(m.line as nat) + ":"@ + (decimal(m.column as nat) + ": "@
        + m.line_text))
}

proof fn lemma_listed(matches: Seq<GrepMatchView>, m: GrepMatchView)
    ensures
        joined(match_lines(matches.push(m)), "\n"@) == if matches.len() == 0 {
            listed_match(m)
        } else {
            joined(match_lines(matches), "\n"@) + "\n"@ + listed_match(m)
        },
{
    let all = match_lines(matches.push(m));
    let line = all.last();
    assert(line =~= listed_match(m));
    assert(all =~= match_lines(matches) + seq![line]);
    assert(joined(seq![line], "\n"@) =~= line) by {
        assert(seq![line].drop_first() =~= Seq::<Seq<char>>::empty());
    }
    if matches.len() == 0 {
        assert(all =~= seq![line]);
    } else {
        joining_joins_joined(match_lines(matches), seq![line], "\n"@);
    }
}

/// Matches are listed in their order, one on each line; one more match adds one more line
/// at the end.
pub proof fn matches_are_listed_in_order(matches: Seq<GrepMatchView>, m: GrepMatchView)
    ensures
        search_text(Seq::empty()) == "No matches found."@,
        output_text(ToolOutputView::Grep { matches: Seq::empty(), truncated: false })
            == "No matches found."@,
        ({
            let before = search_text(matches);
            let after = search_text(matches.push(m));
            &&& matches.len() == 0 ==> after == listed_match(m)
            &&& matches.len() > 0 ==> after == before + "\n"@ + listed_match(m)
            &&& output_text(ToolOutputView::Grep { matches: matches.push(m), truncated: false })
                == after
            &&& output_text(ToolOutputView::Grep { matches: matches.push(m), truncated: true })
                == after + "\n"@ + "... (results truncated)"@
        }),
{
    lemma_listed(matches, m);
    let all = match_lines(matches.push(m));
    let note = "... (results truncated)"@;
    assert(all.push(note) =~= all + seq![note]);
    assert(joined(seq![note], "\n"@) =~= note) by {
        assert(seq![note].drop_first() =~= Seq::<Seq<char>>::empty());
    }
    joining_joins_joined(all, seq![note], "\n"@);
}

/// The model is told everything that a command wrote: first whether its time ran out, then
/// how it ended, then what it wrote to either stream, if anything, and whether that was cut.
pub proof fn commands_are_told_in_full(
    status_code: Option<i32>,
    stdout: Seq<char>,
    stderr: Seq<char>,
    timed_out: bool,
    stdout_truncated: bool,
    stderr_truncated: bool,
)
    ensures
        output_text(
            ToolOutputView::Shell {
                status_code,
                stdout,
                stderr,
                timed_out,
                stdout_truncated,
                stderr_truncated,
            },
        ) == (if timed_out {
            "Command timed out."@ + "\n"@
        } else {
            Seq::empty()
        }) + ("Exit code: "@ + match status_code {
            Some(code) => signed_decimal(code as int),
            None => "none"@,
        }) + (if stdout.len() > 0 {
            "\n"@ + ("stdout:\n"@ + stdout + (if stdout_truncated {
                "\n[stdout truncated]"@
            } else {
                Seq::empty()
            }))
        } else {
            Seq::empty()
        }) + (if stderr.len() > 0 {
            "\n"@ + ("stderr:\n"@ + stderr + (if stderr_truncated {
                "\n[stderr truncated]"@
            } else {
                Seq::empty()
            }))
        } else {
            Seq::empty()
        }),
{
    let first = if timed_out {
        seq!["Command timed out."@]
    } else {
        Seq::empty()
    };
    let exit = "Exit code: "@ + match status_code {
        Some(code) => signed_decimal(code as int),
        None => "none"@,
    };
    let out = "stdout:\n"@ + stdout + (if stdout_truncated {
        "\n[stdout truncated]"@
    } else {
        Seq::empty()
    });
    let err = "stderr:\n"@ + stderr + (if stderr_truncated {
        "\n[stderr truncated]"@
    } else {
        Seq::empty()
    });
    assert("stdout:\n"@ + stdout + Seq::<char>::empty() =~= "stdout:\n"@ + stdout);
    assert("stderr:\n"@ + stderr + Seq::<char>::empty() =~= "stderr:\n"@ + stderr);
    let a = first.push(exit);
    let b = if stdout.len() > 0 {
        a.push(out)
    } else {
        a
    };
    let c = if stderr.len() > 0 {
        b.push(err)
    } else {
        b
    };
    lemma_joined_push(Seq::empty(), "Command timed out."@);
    lemma_joined_push(first, exit);
    lemma_joined_push(a, out);
    lemma_joined_push(b, err);
    assert(Seq::<Seq<char>>::empty().push("Command timed out."@) =~= seq!["Command timed out."@]);
    let none = Seq::<Seq<char>>::empty();
    let all = first + seq![exit] + (if stdout.len() > 0 {
        seq![out]
    } else {
        none
    }) + (if stderr.len() > 0 {
        seq![err]
    } else {
        none
    });
    assert(all =~= c);
    let told = output_text(
        ToolOutputView::Shell {
            status_code,
            stdout,
            stderr,
            timed_out,
            stdout_truncated,
            stderr_truncated,
        },
    );
    assert(told == joined(all, "\n"@));
    let head = (if timed_out {
        "Command timed out."@ + "\n"@
    } else {
        Seq::empty()
    }) + exit;
    assert(joined(a, "\n"@) =~= head);
    let with_out = head + (if stdout.len() > 0 {
        "\n"@ + out
    } else {
        Seq::empty()
    });
    assert(joined(b, "\n"@) =~= with_out);
    assert(joined(c, "\n"@) =~= with_out + (if stderr.len() > 0 {
        "\n"@ + err
    } else {
        Seq::empty()
    }));
}

proof fn lemma_joined_push(parts: Seq<Seq<char>>, part: Seq<char>)
    ensures
        joined(parts.push(part), "\n"@) == if parts.len() == 0 {
            part
        } else {
            joined(parts, "\n"@) + "\n"@ + part
        },
{
    assert(parts.push(part) =~= parts + seq![part]);
    assert(joined(seq![part], "\n"@) =~= part) by {
        assert(seq![part].drop_first() =~= Seq::<Seq<char>>::empty());
    }
    if parts.len() == 0 {
        assert(parts.push(part) =~= seq![part]);
    } else {
        joining_joins_joined(parts, seq![part], "\n"@);
    }
}

/// The model is told the content of a file as it is, and whether it was cut.
pub proof fn contents_are_told_as_they_are(path: Seq<char>, content: Seq<char>, bytes: usize)
    ensures
        output_text(ToolOutputView::Read { path, content, bytes, truncated: false }) == content,
        output_text(ToolOutputView::Read { path, content, bytes, truncated: true }) == content
            + "\n\n[Note: output was truncated]"@,
{
}

/// The model is told which file was written, whether it was there before, and its length.
pub proof fn written_files_are_named(
    path: Seq<char>,
    bytes: usize,
    created: bool,
    overwritten: bool,
)
    ensures
        ({
            let told = output_text(ToolOutputView::Write { path, bytes, created, overwritten });
            let rest = ": "@ + path + " ("@ + decimal(bytes as nat) + " bytes)"@;
            &&& created ==> told == "File "@ + "created"@ + rest
            &&& !created && overwritten ==> told == "File "@ + "overwritten"@ + rest
            &&& !created && !overwritten ==> told == "File "@ + "written"@ + rest
        }),
{
    let told = output_text(ToolOutputView::Write { path, bytes, created, overwritten });
    let rest = ": "@ + path + " ("@ + decimal(bytes as nat) + " bytes)"@;
    let action = if created {
        "created"@
    } else if overwritten {
        "overwritten"@
    } else {
        "written"@
    };
    assert(told =~= "File "@ + action + rest);
}

/// The model is told which file was edited, in how many places, and both its lengths.
pub proof fn edited_files_are_named(
    path: Seq<char>,
    replacements: usize,
    bytes_before: usize,
    bytes_after: usize,
)
    ensures
        output_text(ToolOutputView::Edit { path, replacements, bytes_before, bytes_after })
            == "File edited: "@ + path + (" — "@ + decimal(replacements as nat)
            + " replacement(s), "@) + (decimal(bytes_before as nat) + " → "@ + decimal(
            bytes_after as nat,
        ) + " bytes"@),
{
    assert(output_text(ToolOutputView::Edit { path, replacements, bytes_before, bytes_after })
        =~= "File edited: "@ + path + (" — "@ + decimal(replacements as nat) + " replacement(s), "@)
        + (decimal(bytes_before as nat) + " → "@ + decimal(bytes_after as nat) + " bytes"@));
}

/// Whether `part` is the longest beginning of `s`, in whole characters, of at most `max`
/// bytes.
pub open spec fn is_longest_beginning(part: Seq<char>, s: Seq<char>, max: nat) -> bool {
    &&& part.len() <= s.len()
    &&& part == s.take(part.len() as int)
    &&& byte_len(part) <= max
    &&& part.len() < s.len() ==> byte_len(s.take(part.len() as int + 1)) > max
}

/// The model is shown a document whole, or its first three thousand bytes and its length.
pub proof fn previews_are_whole_or_say_so(text: Seq<char>, kind: Seq<char>) -> (part: Seq<char>)
    ensures
        byte_len(text) <= 3000 ==> preview_text(text, kind) == text,
        is_longest_beginning(part, text, 3000),
        byte_len(text) > 3000 ==> preview_text(text, kind) == part + ("...\n\n["@ + kind
            + " text extracted, "@ + decimal(byte_len(text)) + " total chars]"@),
{
    lemma_byte_prefix_is_longest(text, 3000);
    let part = byte_prefix(text, 3000);
    assert(part.len() == fitting(text, 3000));
    assert(part + "...\n\n["@ + kind + " text extracted, "@ + decimal(byte_len(text))
        + " total chars]"@ =~= part + ("...\n\n["@ + kind + " text extracted, "@ + decimal(
        byte_len(text),
    ) + " total chars]"@));
    part
}

/// The model is shown a file whole, or as many of its first bytes as were asked for, in whole
/// characters, and that it was cut there.
pub proof fn files_are_whole_or_say_so(content: Seq<char>, max: usize) -> (part: Seq<char>)
    ensures
        file_text(content, None) == content,
        byte_len(content) <= max ==> file_text(content, Some(max)) == content,
        is_longest_beginning(part, content, max as nat),
        byte_len(content) > max ==> file_text(content, Some(max)) == part + ("...\n\n[truncated at "@
            + decimal(max as nat) + " bytes]"@),
{
    lemma_byte_prefix_is_longest(content, max as nat);
    let part = byte_prefix(content, max as nat);
    assert(part.len() == fitting(content, max as int));
    assert(part + "...\n\n[truncated at "@ + decimal(max as nat) + " bytes]"@ =~= part + (
    "...\n\n[truncated at "@ + decimal(max as nat) + " bytes]"@));
    part
}

/// A file that is missing is named, with the first twenty files that stand beside it.
pub proof fn missing_files_are_named(
    path: Seq<char>,
    parent: Seq<char>,
    files: Seq<Seq<char>>,
    reason: Seq<char>,
)
    ensures
        ({
            let first = "文件不存在: "@ + path;
            let last = "用 shell ls 或 find 先确认文件位置。"@;
            let beside = "目录 '"@ + parent + "' 下的文件: "@;
            &&& missing_file_text(path, parent, None) == first + "\n"@ + last
            &&& files.len() <= 20 ==> missing_file_text(path, parent, Some(files)) == first + "\n"@
                + (beside + joined(files, ", "@)) + "\n"@ + last
            &&& files.len() > 20 ==> missing_file_text(path, parent, Some(files)) == first + "\n"@
                + (beside + joined(files.take(20), ", "@)) + "\n"@ + last
        }),
        read_failure_text(path, true, reason, parent, Some(files)) == reason,
        read_failure_text(path, false, reason, parent, Some(files)) == missing_file_text(
            path,
            parent,
            Some(files),
        ),
        read_failure_text(path, false, reason, parent, None) == missing_file_text(
            path,
            parent,
            None,
        ),
{
    let first = "文件不存在: "@ + path;
    let last = "用 shell ls 或 find 先确认文件位置。"@;
    let shown = if files.len() > 20 {
        files.take(20)
    } else {
        files
    };
    let list = "目录 '"@ + parent + "' 下的文件: "@ + joined(shown, ", "@);
    let none = Seq::<Seq<char>>::empty();
    lemma_joined_push(none, first);
    lemma_joined_push(none.push(first), last);
    lemma_joined_push(none.push(first), list);
    lemma_joined_push(none.push(first).push(list), last);
    assert(none.push(first).push(last) =~= seq![first, last]);
    assert(none.push(first).push(list).push(last) =~= seq![first, list, last]);
}

/// The user is told what a call does, and to what: the path, the pattern or the command that
/// it gives, or a question mark where it gives none.
pub proof fn calls_are_described_by_their_subject(
    name: Seq<char>,
    fields: Seq<JsonFieldView>,
    verb: Seq<char>,
    key: Seq<char>,
)
    requires
        (name, verb, key) == ("read"@, "读取 "@, "path"@) || (name, verb, key) == (
            "read_pdf"@,
            "提取PDF "@,
            "path"@,
        ) || (name, verb, key) == ("read_docx"@, "提取DOCX "@, "path"@) || (name, verb, key) == (
            "write"@,
            "写入 "@,
            "path"@,
        ) || (name, verb, key) == ("edit"@, "编辑 "@, "path"@) || (name, verb, key) == (
            "shell"@,
            "执行 "@,
            "command"@,
        ),
    ensures
        description_of(name, fields) == verb + match field_text(fields, key) {
            Some(value) => value,
            None => "?"@,
        },
{
    lemma_tool_names();
}

/// A search is described by its pattern in quotes, a tool of another name by that name.
pub proof fn other_calls_are_described(name: Seq<char>, fields: Seq<JsonFieldView>)
    ensures
        description_of("grep"@, fields) == "搜索 \""@ + match field_text(fields, "pattern"@) {
            Some(value) => value,
            None => "?"@,
        } + "\""@,
        name != "read"@ && name != "read_pdf"@ && name != "read_docx"@ && name != "write"@ && name
            != "edit"@ && name != "grep"@ && name != "shell"@ ==> description_of(name, fields)
            == "调用 "@ + name,
{
    lemma_tool_names();
}

proof fn lemma_tool_names()
    ensures
        "read"@.len() == 4 && "read"@[0] == 'r',
        "edit"@.len() == 4 && "edit"@[0] == 'e',
        "grep"@.len() == 4 && "grep"@[0] == 'g',
        "write"@.len() == 5 && "write"@[0] == 'w',
        "shell"@.len() == 5 && "shell"@[0] == 's',
        "read_pdf"@.len() == 8,
        "read_docx"@.len() == 9,
{
    reveal_strlit("read");
    reveal_strlit("edit");
    reveal_strlit("grep");
    reveal_strlit("write");
    reveal_strlit("shell");
    reveal_strlit("read_pdf");
    reveal_strlit("read_docx");
}

/// A change is followed by how it can be undone, and shown in at most eighty bytes of its
/// result; other results are shown whole, or in a hundred bytes and an ellipsis.
pub proof fn notices_show_the_result(
    name: Seq<char>,
    result: Seq<char>,
    last_id: Option<Seq<char>>,
) -> (part: Seq<char>)
    ensures
        name == "write"@ || name == "edit"@ ==> {
            &&& is_longest_beginning(part, result, 80)
            &&& done_text(name, result, last_id) == part + ("  ↩️ /rollback apply "@
                + match last_id {
                Some(id) => id,
                None => "?"@,
            })
        },
        name != "write"@ && name != "edit"@ ==> {
            &&& is_longest_beginning(part, result, 100)
            &&& byte_len(result) <= 100 ==> done_text(name, result, last_id) == result
            &&& byte_len(result) > 100 ==> done_text(name, result, last_id) == part + "..."@
        },
{
    let id = match last_id {
        Some(id) => id,
        None => "?"@,
    };
    if name == "write"@ || name == "edit"@ {
        lemma_byte_prefix_is_longest(result, 80);
        let part = byte_prefix(result, 80);
        assert(part.len() == fitting(result, 80));
        assert(part + "  ↩️ /rollback apply "@ + id =~= part + ("  ↩️ /rollback apply "@ + id));
        part
    } else {
        lemma_byte_prefix_is_longest(result, 100);
        let part = byte_prefix(result, 100);
        assert(part.len() == fitting(result, 100));
        part
    }
}

/// The model is told why a tool failed.
pub proof fn failures_are_told(reason: Seq<char>)
    ensures
        failure_text(reason) == "❌ 工具执行失败: "@ + (reason + "\n请根据错误信息调整后重试。"@),
{
    assert(failure_text(reason) =~= "❌ 工具执行失败: "@ + (reason
        + "\n请根据错误信息调整后重试。"@));
}

/// A search passes over what stands below a directory that version control or a build keeps,
/// and over nothing else.
pub proof fn kept_directories_are_passed_over(path: Seq<char>)
    ensures
        is_skipped(path) <==> exists|i: int|
            occurs_at(path, "/.git/"@, i) || occurs_at(path, "/target/"@, i),
{
    if exists|i: int| occurs_at(path, "/.git/"@, i) {
        let i = choose|i: int| occurs_at(path, "/.git/"@, i);
        assert(occurs_at(path, "/.git/"@, i) || occurs_at(path, "/target/"@, i));
    }
    if exists|i: int| occurs_at(path, "/target/"@, i) {
        let i = choose|i: int| occurs_at(path, "/target/"@, i);
        assert(occurs_at(path, "/.git/"@, i) || occurs_at(path, "/target/"@, i));
    }
}

} // verus!
