//! What holds of every tool, from its request to its report.
use vstd::prelude::*;
use crate::agent::output_laws::is_longest_beginning;
use crate::measure::{byte_len, byte_prefix, fitting, lemma_byte_prefix_is_longest, utf8_lossy};
use crate::number::decimal;
use crate::path::{
    absolute, ancestor_paths, directory_of, joined_path, normalized, path_begins, segments,
};
use crate::text::{count, find, lemma_find_from, lines, occurs_at, occurs_in, replace_first, trimmed};
use crate::tools::edit::edit_result;
use crate::tools::grep::{file_matches, line_starts, matches_from, regex_first_match};
use crate::tools::registry::{
    directories_above, reply_move, start_move, ToolMove, ToolPhaseView, ToolReplyView, ToolRunView, ToolStepView,
};
use crate::tools::tool::{
    cut_text, tool_error_text, FileStateView, GrepMatchView, ToolErrorView, ToolOutputView,
    ToolRequestView,
};

verus! {

/// A text is cut exactly where it is longer than the limit in bytes, and then to its longest
/// beginning that keeps to the limit; without a limit it is whole.
pub proof fn texts_are_cut_to_the_limit(text: Seq<char>, max: usize)
    ensures
        cut_text(text, None) == (text, false),
        cut_text(text, Some(max)).1 <==> byte_len(text) > max,
        is_longest_beginning(cut_text(text, Some(max)).0, text, max as nat),
        byte_len(text) <= max ==> cut_text(text, Some(max)).0 == text,
{
    lemma_byte_prefix_is_longest(text, max as nat);
    assert(byte_prefix(text, max as nat).len() == fitting(text, max as int));
    assert(text.take(text.len() as int) =~= text);
}

/// The last step of a tool that starts with a request and is answered by `replies`.
pub open spec fn outcome(
    workspace: Seq<char>,
    request: ToolRequestView,
    refusal: Option<Seq<char>>,
    replies: Seq<ToolReplyView>,
) -> ToolMove
    decreases replies.len(),
{
    if replies.len() == 0 {
        start_move(workspace, request, refusal)
    } else {
        let before = outcome(workspace, request, refusal, replies.drop_last());
        let run = ToolRunView { workspace, request, pattern: None, phase: before.phase };
        reply_move(run, replies.last())
    }
}

proof fn lemma_outcome(
    workspace: Seq<char>,
    request: ToolRequestView,
    refusal: Option<Seq<char>>,
    replies: Seq<ToolReplyView>,
    reply: ToolReplyView,
)
    ensures
        outcome(workspace, request, refusal, Seq::empty()) == start_move(
            workspace,
            request,
            refusal,
        ),
        outcome(workspace, request, refusal, replies.push(reply)) == reply_move(
            ToolRunView {
                workspace,
                request,
                pattern: None,
                phase: outcome(workspace, request, refusal, replies).phase,
            },
            reply,
        ),
{
    assert(replies.push(reply).drop_last() =~= replies);
}

/// Every tool first asks where the workspace really is, unless its request cannot work: an
/// edit of an empty text, a search by a bad pattern, a command of white space.
pub proof fn tools_start_at_the_workspace(
    workspace: Seq<char>,
    request: ToolRequestView,
    refusal: Option<Seq<char>>,
)
    ensures
        ({
            let first = outcome(workspace, request, refusal, Seq::empty()).step;
            match request {
                ToolRequestView::Edit { path, old, new } => if old.len() == 0 {
                    first == (ToolStepView::Fail { error: ToolErrorView::EmptyOldText })
                } else {
                    first == (ToolStepView::Resolve { path: workspace })
                },
                ToolRequestView::Grep { pattern, path, max_matches } => if refusal is Some {
                    first == (ToolStepView::Fail {
                        error: ToolErrorView::InvalidRegex { pattern, reason: refusal->0 },
                    })
                } else {
                    first == (ToolStepView::Resolve { path: workspace })
                },
                ToolRequestView::Shell { command, timeout_ms, max_output_bytes } => if trimmed(
                    command,
                ).len() == 0 {
                    first == (ToolStepView::Fail { error: ToolErrorView::EmptyCommand })
                } else {
                    first == (ToolStepView::Resolve { path: workspace })
                },
                _ => first == (ToolStepView::Resolve { path: workspace }),
            }
        }),
{
}

/// A read of a file in the workspace reports the text that stands there, up to its limit,
/// with the length of the whole text.
pub proof fn reads_report_the_text(
    workspace: Seq<char>,
    root: Seq<char>,
    path: Seq<char>,
    place: Seq<char>,
    content: Seq<char>,
    max_bytes: Option<usize>,
)
    requires
        path_begins(place, root),
        byte_len(content) <= usize::MAX,
    ensures
        ({
            let request = ToolRequestView::Read { path, max_bytes };
            let asked = seq![ToolReplyView::Resolved { path: root }];
            let found = asked.push(ToolReplyView::Resolved { path: place });
            let seen = found.push(
                ToolReplyView::Inspected { state: FileStateView::Text { content } },
            );
            let step = outcome(workspace, request, None, seen).step;
            &&& outcome(workspace, request, None, asked).step == (ToolStepView::Resolve {
                path: normalized(joined_path(root, path)),
            })
            &&& outcome(workspace, request, None, found).step == (ToolStepView::Inspect {
                path: place,
            })
            &&& step is Done
            &&& step->Done_output is Read
            &&& step->Done_output->Read_path == place
            &&& step->Done_output->Read_bytes == byte_len(content)
            &&& step->Done_output->Read_truncated <==> max_bytes is Some && byte_len(content)
                > max_bytes->0
            &&& max_bytes is None ==> step->Done_output->Read_content == content
            &&& max_bytes is Some ==> is_longest_beginning(
                step->Done_output->Read_content,
                content,
                max_bytes->0 as nat,
            )
        }),
{
    let request = ToolRequestView::Read { path, max_bytes };
    let none = Seq::<ToolReplyView>::empty();
    let r1 = ToolReplyView::Resolved { path: root };
    let r2 = ToolReplyView::Resolved { path: place };
    let r3 = ToolReplyView::Inspected { state: FileStateView::Text { content } };
    assert(none.push(r1) =~= seq![r1]);
    lemma_outcome(workspace, request, None, none, r1);
    lemma_outcome(workspace, request, None, seq![r1], r2);
    lemma_outcome(workspace, request, None, seq![r1].push(r2), r3);
    if max_bytes is Some {
        texts_are_cut_to_the_limit(content, max_bytes->0);
    }
}

/// A write in the workspace writes the content it was given, whole, to the path it was given,
/// and reports its length and whether the file was there.
pub proof fn writes_store_the_content(
    workspace: Seq<char>,
    root: Seq<char>,
    path: Seq<char>,
    index: usize,
    directory: Seq<char>,
    state: FileStateView,
    content: Seq<char>,
    overwrite: bool,
)
    requires
        path_begins(normalized(joined_path(root, path)), root),
        segments(normalized(joined_path(root, path))).len() > 0,
        index < directories_above(normalized(joined_path(root, path))).len(),
        path_begins(directory, root),
        byte_len(content) <= usize::MAX,
    ensures
        ({
            let request = ToolRequestView::Write { path, content, overwrite };
            let target = normalized(joined_path(root, path));
            let replies = seq![
                ToolReplyView::Resolved { path: root },
                ToolReplyView::Found { index },
                ToolReplyView::Resolved { path: directory },
                ToolReplyView::Inspected { state },
            ];
            let step = outcome(workspace, request, None, replies).step;
            let end = outcome(workspace, request, None, replies.push(ToolReplyView::Written)).step;
            &&& state is Missing || (overwrite && !(state is Directory)) ==> step == (
            ToolStepView::WriteFile { path: target, content, create_parent: true }) && end == (
            ToolStepView::Done {
                output: ToolOutputView::Write {
                    path: target,
                    bytes: byte_len(content) as usize,
                    created: state is Missing,
                    overwritten: !(state is Missing),
                },
            })
            &&& state is Directory ==> step == (ToolStepView::Fail {
                error: ToolErrorView::TargetIsDirectory { path: target },
            })
            &&& !(state is Missing) && !(state is Directory) && !overwrite ==> step == (
            ToolStepView::Fail { error: ToolErrorView::WouldOverwrite { path: target } })
        }),
{
    let request = ToolRequestView::Write { path, content, overwrite };
    let none = Seq::<ToolReplyView>::empty();
    let r1 = ToolReplyView::Resolved { path: root };
    let r2 = ToolReplyView::Found { index };
    let r3 = ToolReplyView::Resolved { path: directory };
    let r4 = ToolReplyView::Inspected { state };
    lemma_outcome(workspace, request, None, none, r1);
    lemma_outcome(workspace, request, None, none.push(r1), r2);
    lemma_outcome(workspace, request, None, none.push(r1).push(r2), r3);
    lemma_outcome(workspace, request, None, none.push(r1).push(r2).push(r3), r4);
    lemma_outcome(
        workspace,
        request,
        None,
        none.push(r1).push(r2).push(r3).push(r4),
        ToolReplyView::Written,
    );
    assert(none.push(r1).push(r2).push(r3).push(r4) =~= seq![r1, r2, r3, r4]);
}

proof fn lemma_count_split(before: Seq<char>, old_text: Seq<char>, after: Seq<char>)
    requires
        old_text.len() > 0,
        forall|i: int|
            0 <= i < before.len() ==> !#[trigger] occurs_at(before + old_text + after, old_text, i),
    ensures
        find(before + old_text + after, old_text) == Some(before.len() as int),
        count(before + old_text + after, old_text) == 1 + count(after, old_text),
        count(after, old_text) == 0 <==> !occurs_in(after, old_text),
{
    let s = before + old_text + after;
    let at = before.len() as int;
    assert(s.subrange(at, at + old_text.len()) =~= old_text);
    assert(occurs_at(s, old_text, at));
    lemma_find_from(s, old_text, 0);
    lemma_find_from(after, old_text, 0);
    assert(s.skip(at + old_text.len()) =~= after);
}

/// An edit puts the new text in the place of the old one where that stands in the file once,
/// and changes nothing else; where it stands there again, or not at all, the edit is refused.
pub proof fn edits_need_a_single_place(
    path: Seq<char>,
    before: Seq<char>,
    old_text: Seq<char>,
    new_text: Seq<char>,
    after: Seq<char>,
)
    requires
        old_text.len() > 0,
        byte_len(before + old_text + after) <= usize::MAX,
        byte_len(before + new_text + after) <= usize::MAX,
        forall|i: int|
            0 <= i < before.len() ==> !#[trigger] occurs_at(before + old_text + after, old_text, i),
    ensures
        ({
            let content = before + old_text + after;
            let r = edit_result(path, FileStateView::Text { content }, old_text, new_text);
            &&& !occurs_in(after, old_text) ==> r == Ok::<
                (Seq<char>, ToolOutputView),
                ToolErrorView,
            >(
                (
                    before + new_text + after,
                    ToolOutputView::Edit {
                        path,
                        replacements: 1,
                        bytes_before: byte_len(content) as usize,
                        bytes_after: byte_len(before + new_text + after) as usize,
                    },
                ),
            )
            &&& occurs_in(after, old_text) ==> r is Err && r->Err_0 is OldTextRepeated
                && r->Err_0->OldTextRepeated_path == path && (count(content, old_text)
                <= usize::MAX ==> r->Err_0->OldTextRepeated_count == 1 + count(after, old_text))
        }),
{
    let content = before + old_text + after;
    lemma_count_split(before, old_text, after);
    let at = before.len() as int;
    assert(content.take(at) =~= before);
    assert(content.skip(at + old_text.len()) =~= after);
    assert(replace_first(content, old_text, new_text) =~= before + new_text + after);
}

/// An edit of a text that the file does not hold is refused.
pub proof fn edits_need_the_old_text(
    path: Seq<char>,
    content: Seq<char>,
    old_text: Seq<char>,
    new_text: Seq<char>,
)
    requires
        old_text.len() > 0,
        !occurs_in(content, old_text),
    ensures
        edit_result(path, FileStateView::Text { content }, old_text, new_text) == Err::<
            (Seq<char>, ToolOutputView),
            ToolErrorView,
        >(ToolErrorView::OldTextNotFound { path }),
{
    lemma_find_from(content, old_text, 0);
}

/// An edit in the workspace writes the edited text and then reports it.
pub proof fn edits_write_the_edited_text(
    workspace: Seq<char>,
    root: Seq<char>,
    path: Seq<char>,
    place: Seq<char>,
    state: FileStateView,
    old_text: Seq<char>,
    new_text: Seq<char>,
)
    requires
        old_text.len() > 0,
        path_begins(place, root),
    ensures
        ({
            let request = ToolRequestView::Edit { path, old: old_text, new: new_text };
            let replies = seq![
                ToolReplyView::Resolved { path: root },
                ToolReplyView::Resolved { path: place },
                ToolReplyView::Inspected { state },
            ];
            let step = outcome(workspace, request, None, replies).step;
            let end = outcome(workspace, request, None, replies.push(ToolReplyView::Written)).step;
            match edit_result(place, state, old_text, new_text) {
                Ok((content, output)) => {
                    &&& step == (ToolStepView::WriteFile {
                        path: place,
                        content,
                        create_parent: false,
                    })
                    &&& end == (ToolStepView::Done { output })
                },
                Err(error) => step == (ToolStepView::Fail { error }),
            }
        }),
{
    let request = ToolRequestView::Edit { path, old: old_text, new: new_text };
    let none = Seq::<ToolReplyView>::empty();
    let r1 = ToolReplyView::Resolved { path: root };
    let r2 = ToolReplyView::Resolved { path: place };
    let r3 = ToolReplyView::Inspected { state };
    lemma_outcome(workspace, request, None, none, r1);
    lemma_outcome(workspace, request, None, none.push(r1), r2);
    lemma_outcome(workspace, request, None, none.push(r1).push(r2), r3);
    lemma_outcome(
        workspace,
        request,
        None,
        none.push(r1).push(r2).push(r3),
        ToolReplyView::Written,
    );
    assert(none.push(r1).push(r2).push(r3) =~= seq![r1, r2, r3]);
}

/// A command runs as it was given, in the workspace, for thirty seconds where the request
/// does not say; what it printed is reported up to the limit, each stream for itself.
pub proof fn commands_report_their_output(
    workspace: Seq<char>,
    root: Seq<char>,
    command: Seq<char>,
    timeout_ms: Option<u64>,
    max_output_bytes: Option<usize>,
    status_code: Option<i32>,
    stdout: Seq<u8>,
    stderr: Seq<u8>,
    timed_out: bool,
)
    requires
        trimmed(command).len() > 0,
    ensures
        ({
            let request = ToolRequestView::Shell { command, timeout_ms, max_output_bytes };
            let first = seq![ToolReplyView::Resolved { path: root }];
            let step = outcome(workspace, request, None, first).step;
            let end = outcome(
                workspace,
                request,
                None,
                first.push(ToolReplyView::Executed { status_code, stdout, stderr, timed_out }),
            ).step;
            let limit: usize = match max_output_bytes {
                Some(n) => n,
                None => 65_536,
            };
            let out = utf8_lossy(stdout);
            let err = utf8_lossy(stderr);
            &&& step == (ToolStepView::Execute {
                directory: root,
                command,
                timeout_ms: match timeout_ms {
                    Some(t) => t,
                    None => 30_000,
                },
            })
            &&& end is Done
            &&& end->Done_output is Shell
            &&& end->Done_output->Shell_status_code == status_code
            &&& end->Done_output->Shell_timed_out == timed_out
            &&& is_longest_beginning(end->Done_output->Shell_stdout, out, limit as nat)
            &&& is_longest_beginning(end->Done_output->Shell_stderr, err, limit as nat)
            &&& end->Done_output->Shell_stdout_truncated <==> byte_len(out) > limit
            &&& end->Done_output->Shell_stderr_truncated <==> byte_len(err) > limit
        }),
{
    let request = ToolRequestView::Shell { command, timeout_ms, max_output_bytes };
    let none = Seq::<ToolReplyView>::empty();
    let r1 = ToolReplyView::Resolved { path: root };
    let r2 = ToolReplyView::Executed { status_code, stdout, stderr, timed_out };
    assert(none.push(r1) =~= seq![r1]);
    lemma_outcome(workspace, request, None, none, r1);
    lemma_outcome(workspace, request, None, seq![r1], r2);
    let limit: usize = match max_output_bytes {
        Some(n) => n,
        None => 65_536,
    };
    texts_are_cut_to_the_limit(utf8_lossy(stdout), limit);
    texts_are_cut_to_the_limit(utf8_lossy(stderr), limit);
}

/// A search starts at the path it was given, or at the workspace itself, and goes through its
/// files; one that wants no match is done at once.
pub proof fn searches_start_where_asked(
    workspace: Seq<char>,
    root: Seq<char>,
    pattern: Seq<char>,
    path: Seq<char>,
    place: Seq<char>,
    max_matches: Option<usize>,
)
    requires
        path_begins(place, root),
    ensures
        ({
            let first = seq![ToolReplyView::Resolved { path: root }];
            let found = first.push(ToolReplyView::Resolved { path: place });
            let below = ToolRequestView::Grep { pattern, path: Some(path), max_matches };
            let whole = ToolRequestView::Grep { pattern, path: None, max_matches };
            let nothing = ToolStepView::Done {
                output: ToolOutputView::Grep { matches: Seq::empty(), truncated: true },
            };
            &&& outcome(workspace, below, None, first).step == (ToolStepView::Resolve {
                path: normalized(joined_path(root, path)),
            })
            &&& max_matches == Some(0usize) ==> outcome(workspace, below, None, found).step
                == nothing && outcome(workspace, whole, None, first).step == nothing
            &&& max_matches != Some(0usize) ==> {
                &&& outcome(workspace, below, None, found).step == (ToolStepView::NextFile {
                    target: place,
                })
                &&& outcome(workspace, whole, None, first).step == (ToolStepView::NextFile {
                    target: root,
                })
                &&& outcome(workspace, below, None, found).phase == (ToolPhaseView::Searching {
                    root,
                    target: place,
                    matches: Seq::empty(),
                })
                &&& outcome(workspace, whole, None, first).phase == (ToolPhaseView::Searching {
                    root,
                    target: root,
                    matches: Seq::empty(),
                })
            }
        }),
{
    let none = Seq::<ToolReplyView>::empty();
    let r1 = ToolReplyView::Resolved { path: root };
    let r2 = ToolReplyView::Resolved { path: place };
    let below = ToolRequestView::Grep { pattern, path: Some(path), max_matches };
    let whole = ToolRequestView::Grep { pattern, path: None, max_matches };
    assert(none.push(r1) =~= seq![r1]);
    lemma_outcome(workspace, below, None, none, r1);
    lemma_outcome(workspace, below, None, seq![r1], r2);
    lemma_outcome(workspace, whole, None, none, r1);
}

proof fn lemma_matches_push(
    path: Seq<char>,
    all: Seq<Seq<char>>,
    starts: Seq<Option<usize>>,
    line: Seq<char>,
    start: Option<usize>,
    i: int,
)
    requires
        starts.len() == all.len(),
        0 <= i <= all.len(),
        all.len() < usize::MAX,
        start is Some ==> start->0 < usize::MAX,
    ensures
        matches_from(path, all.push(line), starts.push(start), i) == matches_from(
            path,
            all,
            starts,
            i,
        ) + (if start is Some {
            seq![
                GrepMatchView {
                    path,
                    line: (all.len() + 1) as usize,
                    column: (start->0 + 1) as usize,
                    line_text: line,
                },
            ]
        } else {
            Seq::empty()
        }),
    decreases all.len() - i,
{
    let more_lines = all.push(line);
    let more_starts = starts.push(start);
    if i < all.len() {
        lemma_matches_push(path, all, starts, line, start, i + 1);
        assert(more_starts[i] == starts[i]);
        assert(more_lines[i] == all[i]);
        assert(matches_from(path, more_lines, more_starts, i) =~= matches_from(path, all, starts, i)
            + (if start is Some {
            seq![
                GrepMatchView {
                    path,
                    line: (all.len() + 1) as usize,
                    column: (start->0 + 1) as usize,
                    line_text: line,
                },
            ]
        } else {
            Seq::empty()
        }));
    } else {
        assert(more_starts[i] == start);
        assert(matches_from(path, more_lines, more_starts, i + 1) =~= Seq::empty());
        assert(matches_from(path, more_lines, more_starts, i) =~= matches_from(path, all, starts, i)
            + (if start is Some {
            seq![
                GrepMatchView {
                    path,
                    line: (all.len() + 1) as usize,
                    column: (start->0 + 1) as usize,
                    line_text: line,
                },
            ]
        } else {
            Seq::empty()
        }));
    }
}

/// Each line with a match is reported, in the order of the lines: by its number, the place
/// of its first match, both counted from one, and its whole text. A line without one is not.
pub proof fn matching_lines_are_reported(
    path: Seq<char>,
    all: Seq<Seq<char>>,
    starts: Seq<Option<usize>>,
    line: Seq<char>,
    start: Option<usize>,
)
    requires
        starts.len() == all.len(),
        all.len() < usize::MAX,
        start is Some ==> start->0 < usize::MAX,
    ensures
        matches_from(path, Seq::empty(), Seq::empty(), 0).len() == 0,
        start is None ==> matches_from(path, all.push(line), starts.push(start), 0)
            == matches_from(path, all, starts, 0),
        start is Some ==> matches_from(path, all.push(line), starts.push(start), 0)
            == matches_from(path, all, starts, 0).push(
            GrepMatchView {
                path,
                line: (all.len() + 1) as usize,
                column: (start->0 + 1) as usize,
                line_text: line,
            },
        ),
{
    lemma_matches_push(path, all, starts, line, start, 0);
    let before = matches_from(path, all, starts, 0);
    if start is None {
        assert(before + Seq::<GrepMatchView>::empty() =~= before);
    } else {
        let m = GrepMatchView {
            path,
            line: (all.len() + 1) as usize,
            column: (start->0 + 1) as usize,
            line_text: line,
        };
        assert(before + seq![m] =~= before.push(m));
    }
}

/// The matches of a file are those of its lines, each searched for itself.
pub proof fn files_are_searched_by_line(
    path: Seq<char>,
    content: Seq<char>,
    pattern: Seq<char>,
    starts: Seq<Option<usize>>,
)
    requires
        starts.len() == lines(content).len(),
        forall|i: int|
            0 <= i < starts.len() ==> #[trigger] starts[i] == regex_first_match(
                pattern,
                lines(content)[i],
            ),
    ensures
        file_matches(path, content, pattern) == matches_from(path, lines(content), starts, 0),
{
    assert(starts =~= line_starts(pattern, lines(content)));
}

/// An error says what failed and where, and gives the reason of the system where there is one.
pub proof fn errors_say_what_failed(e: ToolErrorView)
    ensures
        ({
            let text = tool_error_text(e);
            match e {
                ToolErrorView::ResolveWorkspace { path, reason } => text
                    == "failed to resolve workspace "@ + (path + ": "@ + reason),
                ToolErrorView::ResolvePath { path, reason } => text == "failed to resolve path "@ + (
                path + ": "@ + reason),
                ToolErrorView::ResolveParent { path, reason } => text
                    == "failed to resolve parent directory "@ + (path + ": "@ + reason),
                ToolErrorView::OutsideWorkspace { path, root } => text == "path "@ + (path
                    + " is outside workspace "@ + root),
                ToolErrorView::NoParent { path } => text == "path has no parent directory: "@ + path,
                ToolErrorView::NoExistingParent { path } => text
                    == "no existing parent directory for "@ + path,
                ToolErrorView::ReadTargetNotAFile { path } => text == "read target is not a file: "@
                    + path,
                ToolErrorView::EditTargetNotAFile { path } => text == "edit target is not a file: "@
                    + path,
                ToolErrorView::ReadFailed { path, reason } => text == "failed to read file "@ + (path
                    + ": "@ + reason),
                ToolErrorView::EmptyOldText => text == "edit old text must not be empty"@,
                ToolErrorView::OldTextNotFound { path } => text == "old text was not found in "@
                    + path,
                ToolErrorView::OldTextRepeated { path, count } => text == "old text appears "@ + (
                decimal(count as nat) + " times in "@ + (path
                    + "; edit requires a unique match"@)),
                ToolErrorView::TargetIsDirectory { path } => text == "write target is a directory: "@
                    + path,
                ToolErrorView::WouldOverwrite { path } => text
                    == "refusing to overwrite existing file "@ + path,
                ToolErrorView::WriteFailed { path, reason } => text == "failed to write file "@ + (
                path + ": "@ + reason),
                ToolErrorView::EditFailed { path, reason } => text == "failed to write edited file "@
                    + (path + ": "@ + reason),
                ToolErrorView::InvalidRegex { pattern, reason } => text == "invalid regex '"@ + (
                pattern + "': "@ + reason),
                ToolErrorView::EmptyCommand => text == "shell command must not be empty"@,
                ToolErrorView::CreateDirectory { path, reason } => text
                    == "failed to create directory "@ + (path + ": "@ + reason),
                ToolErrorView::WalkFailed { path, reason } => text
                    == "failed while walking grep target "@ + (path + ": "@ + reason),
                ToolErrorView::StartFailed { command, reason } => text
                    == "failed to start shell command: "@ + (command + ": "@ + reason),
                ToolErrorView::CollectFailed { command, reason } => text
                    == "failed to collect shell command output: "@ + (command + ": "@ + reason),
                ToolErrorView::Interrupted { reason } => text == reason,
                ToolErrorView::UnexpectedReply => true,
            }
        }),
{
    assert forall|a: Seq<char>, b: Seq<char>, c: Seq<char>, d: Seq<char>|
        #![trigger (a + b) + c + d]
        (a + b) + c + d == a + (b + c + d) by {
        assert((a + b) + c + d =~= a + (b + c + d));
    }
    match e {
        ToolErrorView::OldTextRepeated { path, count } => {
            assert(tool_error_text(e) =~= "old text appears "@ + (decimal(count as nat)
                + " times in "@ + (path + "; edit requires a unique match"@)));
        },
        _ => {},
    }
}

/// A step that fails ends a tool, with what was being done and why; so does a path that
/// leads out of the workspace.
pub proof fn failed_steps_end_a_tool(
    run: ToolRunView,
    root: Seq<char>,
    path: Seq<char>,
    reason: Seq<char>,
)
    ensures
        ({
            let lost = ToolReplyView::Failed { reason };
            let outside = ToolErrorView::OutsideWorkspace { path, root };
            &&& run.phase is Root ==> reply_move(run, lost).step == (ToolStepView::Fail {
                error: ToolErrorView::ResolveWorkspace { path: run.workspace, reason },
            })
            &&& run.phase is Target ==> reply_move(run, lost).step == (ToolStepView::Fail {
                error: ToolErrorView::ResolvePath { path: run.phase->Target_candidate, reason },
            })
            &&& run.phase is Target && run.phase->Target_root == root && !path_begins(path, root)
                ==> reply_move(run, ToolReplyView::Resolved { path }).step == (
            ToolStepView::Fail { error: outside })
            &&& run.phase is Parent ==> reply_move(run, lost).step == (ToolStepView::Fail {
                error: ToolErrorView::ResolveParent { path: run.phase->Parent_ancestor, reason },
            })
            &&& run.phase is Parent && run.phase->Parent_root == root && !path_begins(path, root)
                ==> reply_move(run, ToolReplyView::Resolved { path }).step == (
            ToolStepView::Fail { error: outside })
            &&& run.phase is Writing && run.request is Write ==> reply_move(run, lost).step == (
            ToolStepView::Fail {
                error: ToolErrorView::WriteFailed { path: run.phase->Writing_path, reason },
            })
            &&& run.phase is Writing && run.request is Edit ==> reply_move(run, lost).step == (
            ToolStepView::Fail {
                error: ToolErrorView::EditFailed { path: run.phase->Writing_path, reason },
            })
            &&& run.phase is Writing ==> reply_move(
                run,
                ToolReplyView::ParentFailed { reason },
            ).step == (ToolStepView::Fail {
                error: ToolErrorView::CreateDirectory {
                    path: directory_of(run.phase->Writing_path),
                    reason,
                },
            })
            &&& run.phase is Searching ==> reply_move(run, lost).step == (ToolStepView::Fail {
                error: ToolErrorView::WalkFailed { path: run.phase->Searching_target, reason },
            })
            &&& run.phase is Executing && run.request is Shell ==> {
                let command = run.request->Shell_command;
                &&& reply_move(run, lost).step == (ToolStepView::Fail {
                    error: ToolErrorView::StartFailed { command, reason },
                })
                &&& reply_move(run, ToolReplyView::CollectFailed { reason }).step == (
                ToolStepView::Fail { error: ToolErrorView::CollectFailed { command, reason } })
                &&& reply_move(run, ToolReplyView::WaitFailed { reason }).step == (
                ToolStepView::Fail { error: ToolErrorView::Interrupted { reason } })
            }
        }),
{
}

/// A file is only read or edited where it is one: what stands at the path of a directory, or
/// of nothing, is an error.
pub proof fn only_files_are_read(
    run: ToolRunView,
    path: Seq<char>,
    reason: Seq<char>,
)
    requires
        run.phase == (ToolPhaseView::File { path }),
    ensures
        ({
            let missing = ToolReplyView::Inspected { state: FileStateView::Missing };
            let directory = ToolReplyView::Inspected { state: FileStateView::Directory };
            let lost = ToolReplyView::Inspected { state: FileStateView::Unreadable { reason } };
            &&& run.request is Read || run.request is Edit ==> reply_move(run, lost).step == (
            ToolStepView::Fail { error: ToolErrorView::ReadFailed { path, reason } })
            &&& run.request is Read ==> {
                let error = ToolErrorView::ReadTargetNotAFile { path };
                &&& reply_move(run, missing).step == (ToolStepView::Fail { error })
                &&& reply_move(run, directory).step == (ToolStepView::Fail { error })
            }
            &&& run.request is Edit ==> {
                let error = ToolErrorView::EditTargetNotAFile { path };
                &&& reply_move(run, missing).step == (ToolStepView::Fail { error })
                &&& reply_move(run, directory).step == (ToolStepView::Fail { error })
            }
        }),
{
}

/// A write outside the workspace is refused by its path alone, and so is one to the root of
/// all paths; else the nearest directory above it that exists is looked for.
pub proof fn writes_outside_are_refused(
    run: ToolRunView,
    root: Seq<char>,
)
    requires
        run.phase is Root,
        run.request is Write,
    ensures
        ({
            let target = normalized(joined_path(root, run.request->Write_path));
            let step = reply_move(run, ToolReplyView::Resolved { path: root }).step;
            &&& !path_begins(target, root) ==> step == (ToolStepView::Fail {
                error: ToolErrorView::OutsideWorkspace { path: target, root },
            })
            &&& path_begins(target, root) && segments(target).len() == 0 ==> step == (
            ToolStepView::Fail { error: ToolErrorView::NoParent { path: target } })
            &&& path_begins(target, root) && segments(target).len() > 0 ==> step == (
            ToolStepView::FindExisting {
                candidates: ancestor_paths(absolute(target), segments(target).drop_last()),
            })
        }),
{
}

} // verus!
