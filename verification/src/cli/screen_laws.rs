//! What holds of everything that is shown.
use vstd::prelude::*;
use crate::cli::cards::{
    banner, banner_session, card_bottom, card_line, card_separator, card_top, content_width, menu_width,
};
use crate::cli::sessions::{
    age_text, current_line, item_line, list_head, no_others_line, other_sessions, others_line,
    overview_head, session_items, session_list, session_overview, switch_line, workspace_line,
};
use crate::cli::startup::StartupSessionItemView;
use crate::cli::style::{
    BLUE, BOLD_CYAN, BOLD_GREEN, BOLD_WHITE, BORDER, CYAN, DIM, ERASE_LINE, GREEN, MUTED, RESET,
    WHITE, YELLOW,
};
use crate::cli::turn_ui::{
    after_tick, after_token, after_tool, after_tool_done, bordered, compact_description,
    compact_done, display_name, exit_code, finish_text, first_line, fresh_ui, localized,
    result_path, TurnUiState,
};
use crate::cli::width::{
    cut_end, cut_start, fitting_count, fitting_is_longest, padded, shortened, shortened_left,
    text_width, total_width, two_columns,
};
use crate::number::decimal;
use crate::session::SessionView;
use crate::text::{
    begins, find, is_space, lemma_find_from, line_len, occurs_at, occurs_in, repeated, trimmed,
    with_char_replaced,
};
use crate::text_laws::{all_space, ascii_spaces, space_around_is_cut};

verus! {

// ---------------------------------------------------------------------------
// Widths
// ---------------------------------------------------------------------------

/// A text that has room is shown whole. Of another the longest beginning that leaves room
/// for three dots is shown, or its longest end; and dots alone where there is room for no
/// more than those.
pub proof fn long_texts_are_cut(s: Seq<char>, max: usize, total: usize, widths: Seq<usize>) -> (kept: (
    int,
    int,
))
    requires
        widths.len() == s.len(),
    ensures
        total <= max ==> cut_end(s, max, total, widths) == s && cut_start(s, max, total, widths)
            == s,
        max <= 3 && total > max ==> cut_end(s, max, total, widths) == repeated("."@, max as nat)
            && cut_start(s, max, total, widths) == repeated("."@, max as nat),
        max > 3 && total > max ==> {
            &&& 0 <= kept.0 <= s.len()
            &&& cut_end(s, max, total, widths) == s.take(kept.0) + "..."@
            &&& total_width(widths.take(kept.0)) + 3 <= max
            &&& kept.0 < s.len() ==> total_width(widths.take(kept.0 + 1)) + 3 > max
            &&& 0 <= kept.1 <= s.len()
            &&& cut_start(s, max, total, widths) == "..."@ + s.skip(s.len() - kept.1)
            &&& total_width(widths.reverse().take(kept.1)) + 3 <= max
            &&& kept.1 < s.len() ==> total_width(widths.reverse().take(kept.1 + 1)) + 3 > max
        },
{
    if max > 3 {
        fitting_is_longest(widths, max - 3);
        fitting_is_longest(widths.reverse(), max - 3);
        (
            fitting_count(widths, max - 3) as int,
            fitting_count(widths.reverse(), max - 3) as int,
        )
    } else {
        (0, 0)
    }
}

/// A text that has room is shown whole, cut at neither end.
pub proof fn texts_with_room_are_whole(s: Seq<char>, max: usize)
    requires
        text_width(s) <= max,
    ensures
        shortened(s, max) == s,
        shortened_left(s, max) == s,
        padded(s, max) == s + repeated(" "@, (max - text_width(s)) as nat),
{
}

/// Two texts share a line: the second at its right end, and spaces between; where there is
/// no room for both, the first alone is shown.
pub proof fn two_texts_share_a_line(left: Seq<char>, right: Seq<char>, width: usize)
    ensures
        text_width(right) + 4 >= width ==> two_columns(left, right, width) == shortened(left, width),
        text_width(left) + text_width(right) + 4 < width ==> two_columns(left, right, width) == left
            + repeated(" "@, (width - text_width(left) - text_width(right)) as nat) + right,
{
}

// ---------------------------------------------------------------------------
// Cards
// ---------------------------------------------------------------------------

/// The edges of a card are as wide as the card, with a corner at either end.
pub proof fn edges_are_as_wide_as_the_card(width: usize)
    requires
        width >= 2,
    ensures
        card_top(width) == BORDER@ + "╭"@ + repeated("─"@, (width - 2) as nat) + "╮"@ + RESET@
            + "\n"@,
        card_separator(width) == BORDER@ + "├"@ + repeated("─"@, (width - 2) as nat) + "┤"@
            + RESET@ + "\n"@,
        card_bottom(width) == BORDER@ + "╰"@ + repeated("─"@, (width - 2) as nat) + "╯"@ + RESET@
            + "\n"@,
{
}

/// A row of a card holds its text, in its style, and is filled up to the right edge.
pub proof fn rows_are_filled_up(width: usize, content: Seq<char>, style: Seq<char>)
    requires
        width >= 4,
        text_width(content) <= width - 4,
    ensures
        card_line(width, content, style) == "│ "@ + style + content + RESET@ + repeated(
            " "@,
            (width - 4 - text_width(content)) as nat,
        ) + " │\n"@,
{
    texts_with_room_are_whole(content, (width - 4) as usize);
}

/// What is shown is as wide as the terminal, but neither narrow nor very wide.
pub proof fn widths_follow_the_terminal(columns: usize)
    ensures
        58 <= content_width(Some(columns)) <= 88,
        58 <= columns <= 88 ==> content_width(Some(columns)) == columns,
        columns < 58 ==> content_width(Some(columns)) == 58,
        columns > 88 ==> content_width(Some(columns)) == 88,
        content_width(None) == 74,
        64 <= menu_width(Some(columns)) <= 88,
        64 <= columns <= 88 ==> menu_width(Some(columns)) == columns,
        columns < 64 ==> menu_width(Some(columns)) == 64,
        columns > 88 ==> menu_width(Some(columns)) == 88,
        menu_width(None) == 78,
{
}

/// The banner tells the session and how many messages it has, or that it is new.
pub proof fn banners_tell_of_the_session(id: Seq<char>, count: nat)
    ensures
        banner_session(id, 0) == "新会话"@,
        count > 0 ==> banner_session(id, count) == id + "  "@ + decimal(count) + " 条消息"@,
{
}

// ---------------------------------------------------------------------------
// Lists of sessions
// ---------------------------------------------------------------------------

/// What was changed less than a minute ago was changed just now; up to an hour the full
/// minutes are told, up to a day the full hours, up to thirty days the full days.
pub proof fn ages_are_told_in_full_units(updated: u64, now: u64, n: nat)
    ensures
        updated > now ==> age_text(updated, now) == "刚刚"@,
        0 <= now - updated < 60_000 ==> age_text(updated, now) == "刚刚"@,
        1 <= n < 60 && n * 60_000 <= now - updated < (n + 1) * 60_000 ==> age_text(updated, now)
            == decimal(n) + " 分钟前"@,
        1 <= n < 24 && n * 3_600_000 <= now - updated < (n + 1) * 3_600_000 ==> age_text(
            updated,
            now,
        ) == decimal(n) + " 小时前"@,
        1 <= n < 30 && n * 86_400_000 <= now - updated < (n + 1) * 86_400_000 ==> age_text(
            updated,
            now,
        ) == decimal(n) + " 天前"@,
        now - updated >= 2_592_001_000 ==> age_text(updated, now) == "较早"@,
{
}

/// A session is listed by its number, or as the current one, with its id, the number of its
/// messages, its model and its age, and on a second line what was said first, if anything.
pub proof fn sessions_are_listed_in_order(
    items: Seq<StartupSessionItemView>,
    item: StartupSessionItemView,
    now: u64,
)
    ensures
        session_items(Seq::empty(), now).len() == 0,
        ({
            let label = if item.active {
                "当前"@
            } else {
                decimal(items.len() + 1) + "."@
            };
            let preview = shortened(with_char_replaced(item.preview, '\n', ' '), 80);
            let first = DIM@ + "│"@ + RESET@ + " "@ + BOLD_WHITE@ + padded(label, 5) + RESET@ + " "@
                + CYAN@ + item.id + RESET@ + "  "@ + MUTED@ + decimal(item.message_count as nat)
                + " 条消息 · "@ + item.model + " · "@ + age_text(item.updated_at_ms, now) + RESET@
                + "\n"@;
            let second = DIM@ + "│"@ + RESET@ + "       "@ + MUTED@ + "预览"@ + RESET@ + "  "@
                + preview + "\n"@;
            &&& preview.len() > 0 ==> session_items(items.push(item), now) == session_items(
                items,
                now,
            ) + (first + second)
            &&& preview.len() == 0 ==> session_items(items.push(item), now) == session_items(
                items,
                now,
            ) + first
        }),
{
    assert(items.push(item).drop_last() =~= items);
    let label = if item.active {
        "当前"@
    } else {
        decimal(items.len() + 1) + "."@
    };
    let line = item_line(label, item, now);
    assert(line + Seq::<char>::empty() =~= line);
}

/// The other sessions are all but the one, in their order.
pub proof fn other_sessions_are_all_but_one(
    items: Seq<StartupSessionItemView>,
    item: StartupSessionItemView,
    id: Seq<char>,
)
    ensures
        other_sessions(Seq::empty(), id).len() == 0,
        item.id == id ==> other_sessions(items.push(item), id) == other_sessions(items, id),
        item.id != id ==> other_sessions(items.push(item), id) == other_sessions(items, id).push(
            item,
        ),
{
    assert(items.push(item).drop_last() =~= items);
}

/// The overview tells of the current session, of its workspace and of the first six others.
pub proof fn overviews_tell_of_six_others(
    session: SessionView,
    items: Seq<StartupSessionItemView>,
    now: u64,
)
    ensures
        ({
            let others = other_sessions(items, session.id);
            let head = overview_head() + current_line(session, now) + workspace_line(
                session.workspace,
            );
            let shown = session_overview(session, items, now);
            &&& others.len() == 0 ==> shown == head + no_others_line() + switch_line()
            &&& 0 < others.len() <= 6 ==> shown == head + (others_line() + session_items(
                others,
                now,
            )) + switch_line()
            &&& others.len() > 6 ==> shown == head + (others_line() + session_items(
                others.take(6),
                now,
            )) + switch_line()
        }),
        current_line(session, now) == DIM@ + "│"@ + RESET@ + " "@ + MUTED@ + "当前"@ + RESET@ + "  "@
            + CYAN@ + session.id + RESET@ + "  "@ + MUTED@ + decimal(session.history.len())
            + " 条消息 · "@ + session.provider.name + "/"@ + session.provider.model + " · "@
            + age_text(session.updated_at_ms, now) + RESET@ + "\n"@,
        workspace_line(session.workspace) == DIM@ + "│"@ + RESET@ + " "@ + MUTED@ + "工作区"@
            + RESET@ + " "@ + session.workspace + "\n"@,
{
}

/// The list of sessions tells how many there are, and shows all of them.
pub proof fn lists_show_every_session(items: Seq<StartupSessionItemView>, now: u64)
    ensures
        items.len() == 0 ==> session_list(items, now) == "没有已保存的会话。\n"@,
        items.len() > 0 ==> session_list(items, now) == list_head(items.len()) + session_items(
            items,
            now,
        ) + switch_line(),
        list_head(items.len()) == "\n"@ + DIM@ + "╭─"@ + RESET@ + " "@ + BOLD_CYAN@ + "会话列表"@
            + RESET@ + " "@ + MUTED@ + "共 "@ + decimal(items.len()) + " 个"@ + RESET@ + "\n"@,
{
}

// ---------------------------------------------------------------------------
// Turns
// ---------------------------------------------------------------------------

/// Each character of an answer is shown as it is; the first of a line has the border before
/// it, and a line feed ends the line.
pub proof fn characters_are_shown_as_they_are(c: char, at_start: bool)
    ensures
        bordered(Seq::empty(), at_start) == (Seq::<char>::empty(), at_start),
        c == '\n' ==> bordered(seq![c], at_start) == (seq![c], true),
        c != '\n' && !at_start ==> bordered(seq![c], at_start) == (seq![c], false),
        c != '\n' && at_start ==> bordered(seq![c], at_start) == (
            DIM@ + "│"@ + RESET@ + " "@ + BOLD_WHITE@ + seq![c],
            false,
        ),
{
    let none = Seq::<char>::empty();
    assert(seq![c].drop_last() =~= none);
    assert(none.push(c) =~= seq![c]);
    let border = DIM@ + "│"@ + RESET@ + " "@ + BOLD_WHITE@;
    assert(none + border + seq![c] =~= border + seq![c]);
}

/// While the model is thinking its sign goes round in four pictures, until the answer begins
/// or a tool is at work.
pub proof fn thinking_is_shown_until_something_happens(ui: TurnUiState)
    ensures
        ui.answer_started || ui.tool_line_active ==> after_tick(ui) == (Seq::<char>::empty(), ui),
        !ui.answer_started && !ui.tool_line_active ==> {
            let picture = if ui.loading_frame % 4 == 0 {
                "◐"@
            } else if ui.loading_frame % 4 == 1 {
                "◓"@
            } else if ui.loading_frame % 4 == 2 {
                "◑"@
            } else {
                "◒"@
            };
            &&& after_tick(ui).0 == ERASE_LINE@ + DIM@ + "╭─"@ + RESET@ + " "@ + CYAN@ + picture
                + " 思考中"@ + RESET@ + " "@ + MUTED@ + "正在分析上下文，等待模型响应"@ + RESET@
            &&& after_tick(ui).1.loading_visible
            &&& ui.loading_frame < usize::MAX ==> after_tick(ui).1.loading_frame == ui.loading_frame
                + 1
            &&& ui.loading_frame == usize::MAX ==> after_tick(ui).1.loading_frame == 0
            &&& after_tick(ui).1.tool_count == ui.tool_count
            &&& after_tick(ui).1.answer_line_start == ui.answer_line_start
            &&& !after_tick(ui).1.answer_started
            &&& !after_tick(ui).1.tool_line_active
        },
{
}

/// The answer is shown piece by piece, with its head before the first; what was shown for a
/// moment is cleared.
pub proof fn answers_are_shown_piece_by_piece(
    ui: TurnUiState,
    token: Seq<char>,
    elapsed: Seq<char>,
)
    ensures
        ({
            let (shown, after) = after_token(ui, token, elapsed);
            let (text, starts) = bordered(token, ui.answer_line_start);
            let head = DIM@ + "╭─"@ + RESET@ + " "@ + BOLD_CYAN@ + "回答"@ + RESET@ + " "@ + MUTED@
                + elapsed + "s"@ + RESET@ + "\n"@;
            &&& !ui.loading_visible && !ui.tool_line_active && ui.answer_started ==> shown == text
            &&& !ui.loading_visible && !ui.tool_line_active && !ui.answer_started ==> shown == head
                + text
            &&& ui.loading_visible || ui.tool_line_active ==> if ui.answer_started {
                shown == ERASE_LINE@ + text
            } else {
                shown == ERASE_LINE@ + head + text
            }
            &&& after.answer_started && after.answer_line_start == starts
            &&& !after.loading_visible && !after.tool_line_active
            &&& after.tool_count == ui.tool_count && after.loading_frame == ui.loading_frame
        }),
{
    let (shown, after) = after_token(ui, token, elapsed);
    let (text, starts) = bordered(token, ui.answer_line_start);
    let head = crate::cli::turn_ui::answer_head(elapsed);
    let none = Seq::<char>::empty();
    assert(none + none + text =~= text);
    assert(none + head + text =~= head + text);
    assert(ERASE_LINE@ + none + text =~= ERASE_LINE@ + text);
}

/// Every tool is counted, and its line stays until it is done.
pub proof fn tools_are_counted(
    ui: TurnUiState,
    name: Seq<char>,
    description: Seq<char>,
    done: Seq<char>,
)
    requires
        ui.tool_count < u32::MAX,
    ensures
        ({
            let at_work = after_tool(ui, name, description).1;
            let (shown, after) = after_tool_done(at_work, name, done);
            &&& at_work.tool_count == ui.tool_count + 1
            &&& at_work.tool_line_active
            &&& !at_work.loading_visible
            &&& at_work.answer_started == ui.answer_started
            &&& after.tool_count == ui.tool_count + 1
            &&& !after.tool_line_active
            &&& after.answer_started == ui.answer_started
            &&& after.answer_line_start == ui.answer_line_start
            &&& shown == ERASE_LINE@ + (DIM@ + "│"@ + RESET@ + " "@ + (if name == "write"@ || name
                == "edit"@ {
                GREEN@
            } else {
                MUTED@
            }) + "✓ "@ + display_name(name) + RESET@ + " "@ + MUTED@ + compact_done(name, done)
                + RESET@ + "\n"@)
        }),
        fresh_ui().tool_count == 0,
        !fresh_ui().answer_started && fresh_ui().answer_line_start,
        !fresh_ui().loading_visible && !fresh_ui().tool_line_active,
{
}

/// A turn that succeeded ends with how many tools it took, and with how to undo what they
/// did; one that failed ends with an empty line.
pub proof fn turns_end_with_a_count(ui: TurnUiState)
    requires
        !ui.loading_visible,
        !ui.tool_line_active,
    ensures
        finish_text(ui, false) == "\n"@,
        ui.tool_count == 0 && !ui.answer_started ==> finish_text(ui, true) == "\n"@,
        ui.tool_count == 0 && ui.answer_started && ui.answer_line_start ==> finish_text(ui, true)
            == RESET@ + (DIM@ + "╰─"@ + RESET@ + " "@ + BOLD_GREEN@ + "✓ 完成"@ + RESET@ + "\n"@)
            + "\n"@,
        ui.tool_count > 0 && ui.answer_started && !ui.answer_line_start ==> finish_text(ui, true)
            == RESET@ + "\n"@ + (DIM@ + "╰─"@ + RESET@ + " "@ + BOLD_GREEN@ + "✓ 完成"@ + RESET@
            + " "@ + MUTED@ + " · 工具 "@ + decimal(ui.tool_count as nat) + " 次"@ + RESET@
            + "\n"@) + (DIM@ + "  ↳"@ + RESET@ + " "@ + MUTED@
            + "可用 /回滚 查看或恢复本轮文件改动。"@ + RESET@ + "\n"@) + "\n"@,
{
    let none = Seq::<char>::empty();
    let line = crate::cli::turn_ui::finish_line();
    let counted = crate::cli::turn_ui::finish_tools_line(ui.tool_count);
    let hint = crate::cli::turn_ui::rollback_hint();
    assert(none + "\n"@ =~= "\n"@);
    assert(none + none + none + "\n"@ =~= "\n"@);
    assert(none + (RESET@ + none + line) + none + "\n"@ =~= RESET@ + line + "\n"@);
    assert(none + (RESET@ + "\n"@ + counted) + hint + "\n"@ =~= RESET@ + "\n"@ + counted + hint
        + "\n"@);
}

proof fn lemma_line_len_of(line: Seq<char>, rest: Seq<char>)
    requires
        !line.contains('\n'),
    ensures
        line_len(line + seq!['\n'] + rest) == line.len(),
    decreases line.len(),
{
    let s = line + seq!['\n'] + rest;
    if line.len() > 0 {
        let less = line.drop_first();
        assert(line.contains(line[0]));
        assert(s[0] == line[0]);
        assert(s.drop_first() =~= less + seq!['\n'] + rest);
        assert(!less.contains('\n')) by {
            if less.contains('\n') {
                let i = choose|i: int| 0 <= i < less.len() && less[i] == '\n';
                assert(line[i + 1] == '\n');
            }
        }
        lemma_line_len_of(less, rest);
    } else {
        assert(s[0] == '\n');
    }
}

proof fn lemma_first_line(line: Seq<char>, rest: Seq<char>)
    requires
        !line.contains('\n'),
        line.len() > 0,
        line.last() != '\r',
    ensures
        first_line(line + seq!['\n'] + rest) == line,
{
    let s = line + seq!['\n'] + rest;
    lemma_line_len_of(line, rest);
    assert(s.take(line.len() as int) =~= line);
}

/// The code that a command ended with is told, where it is not zero.
pub proof fn exit_codes_are_told(name: Seq<char>, code: Seq<char>, rest: Seq<char>)
    requires
        code.len() > 0,
        forall|i: int| 0 <= i < code.len() ==> ('0' <= #[trigger] code[i] <= '9') || code[i] == '-',
        !occurs_in("Exit code: "@ + code + "\n"@ + rest, "Exit code: 0"@),
    ensures
        exit_code("Exit code: "@ + code + "\n"@ + rest) == code,
        compact_done(name, "Exit code: "@ + code + "\n"@ + rest) == "退出码 "@ + code,
{
    let done = "Exit code: "@ + code + "\n"@ + rest;
    reveal_strlit("Exit code: ");
    reveal_strlit("Exit code:");
    reveal_strlit("\n");
    reveal_strlit("Shell command was denied by the user");
    reveal_strlit("Shell command was not executed");
    reveal_strlit("命令已被用户拒绝");
    reveal_strlit("命令参数无法解析");
    let line = seq![' '] + code;
    let tail = line + seq!['\n'] + rest;
    assert(done =~= "Exit code:"@ + tail);
    assert(done.subrange(0, 10) =~= "Exit code:"@);
    assert(occurs_at(done, "Exit code:"@, 0));
    lemma_find_from(done, "Exit code:"@, 0);
    assert(done.skip(10) =~= tail);
    assert(!line.contains('\n')) by {
        if line.contains('\n') {
            let i = choose|i: int| 0 <= i < line.len() && line[i] == '\n';
            if i > 0 {
                assert(line[i] == code[i - 1]);
            }
        }
    }
    assert(line.last() == code.last());
    assert(code.last() == code[code.len() - 1]);
    lemma_first_line(line, rest);
    ascii_spaces(' ');
    ascii_spaces(code[0]);
    ascii_spaces(code.last());
    let none = Seq::<char>::empty();
    assert(line =~= seq![' '] + code + none);
    space_around_is_cut(seq![' '], code, none);
    assert(done[0] == 'E');
    assert("Shell command was denied by the user"@[0] == 'S');
    assert("Shell command was not executed"@[0] == 'S');
    assert("命令已被用户拒绝"@[0] == '命');
    assert("命令参数无法解析"@[0] == '命');
    assert(!begins(done, "Shell command was denied by the user"@)) by {
        if begins(done, "Shell command was denied by the user"@) {
            assert(done.take("Shell command was denied by the user"@.len() as int)[0] == 'E');
        }
    }
    assert(!begins(done, "Shell command was not executed"@)) by {
        if begins(done, "Shell command was not executed"@) {
            assert(done.take("Shell command was not executed"@.len() as int)[0] == 'E');
        }
    }
    assert(!begins(done, "命令已被用户拒绝"@)) by {
        if begins(done, "命令已被用户拒绝"@) {
            assert(done.take("命令已被用户拒绝"@.len() as int)[0] == 'E');
        }
    }
    assert(!begins(done, "命令参数无法解析"@)) by {
        if begins(done, "命令参数无法解析"@) {
            assert(done.take("命令参数无法解析"@.len() as int)[0] == 'E');
        }
    }
}

/// The path that stands between the first colon of a result and the bracket behind it is the
/// file that a tool reports.
pub proof fn reported_files_are_named(
    lead: Seq<char>,
    gap: Seq<char>,
    path: Seq<char>,
    rest: Seq<char>,
)
    requires
        all_space(gap),
        !lead.contains(':'),
        path.len() > 0,
        !is_space(path[0]) && !is_space(path.last()),
        forall|i: int|
            0 <= i < (gap + path).len() ==> !#[trigger] occurs_at(
                gap + path + " ("@ + rest,
                " ("@,
                i,
            ),
    ensures
        result_path(lead + ":"@ + (gap + path + " ("@ + rest)) == path,
{
    let tail = gap + path + " ("@ + rest;
    let done = lead + ":"@ + tail;
    reveal_strlit(":");
    let at = lead.len() as int;
    lemma_find_from(done, ":"@, 0);
    assert(done.subrange(at, at + 1) =~= ":"@);
    assert(occurs_at(done, ":"@, at));
    assert forall|i: int| 0 <= i < at implies !occurs_at(done, ":"@, i) by {
        assert(lead.contains(lead[i]));
        assert(done.subrange(i, i + 1)[0] == lead[i]);
    }
    assert(find(done, ":"@) == Some(at));
    assert(done.skip(at + 1) =~= tail);
    let n = (gap + path).len() as int;
    lemma_find_from(tail, " ("@, 0);
    assert(tail.subrange(n, n + " ("@.len()) =~= " ("@);
    assert(occurs_at(tail, " ("@, n));
    assert(find(tail, " ("@) == Some(n));
    assert(tail.take(n) =~= gap + path);
    let none = Seq::<char>::empty();
    assert(gap + path =~= gap + path + none);
    space_around_is_cut(gap, path, none);
}

/// What the user refused is told as refused, and a command that could not be read as not
/// carried out, with the reason that stands behind the first colon.
pub proof fn refusals_are_told_to_the_user(
    name: Seq<char>,
    more: Seq<char>,
    lead: Seq<char>,
    detail: Seq<char>,
)
    requires
        !lead.contains(':'),
    ensures
        localized("Shell command was denied by the user"@ + more) == "命令已被用户拒绝。"@,
        compact_done(name, "Shell command was denied by the user"@ + more) == "已拒绝"@,
        localized("Shell command was not executed"@ + lead + ":"@ + detail)
            == "命令参数无法解析，未执行："@ + trimmed(detail),
        compact_done(name, "Shell command was not executed"@ + lead + ":"@ + detail)
            == "未执行，参数无法解析"@,
{
    reveal_strlit("Shell command was denied by the user");
    reveal_strlit("Shell command was not executed");
    reveal_strlit("命令已被用户拒绝。");
    reveal_strlit("命令已被用户拒绝");
    reveal_strlit("命令参数无法解析，未执行：");
    reveal_strlit("命令参数无法解析");
    reveal_strlit(":");
    let denied = "Shell command was denied by the user"@;
    let unread = "Shell command was not executed"@;
    let n = denied.len() as int;
    let k = unread.len() as int;
    assert((denied + more).take(n) =~= denied);
    assert("命令已被用户拒绝。"@.take(8) =~= "命令已被用户拒绝"@);
    let told = unread + lead + ":"@ + detail;
    assert(told.take(k) =~= unread);
    assert(!begins(told, denied)) by {
        if begins(told, denied) {
            assert(told.take(n)[18] == told[18]);
            assert(denied[18] == 'd');
            assert(unread[18] == 'n');
        }
    }
    let head = unread + lead;
    let at = head.len() as int;
    lemma_find_from(told, ":"@, 0);
    assert(told.subrange(at, at + 1) =~= ":"@);
    assert(occurs_at(told, ":"@, at));
    assert forall|i: int| 0 <= i < at implies !occurs_at(told, ":"@, i) by {
        assert(told.subrange(i, i + 1)[0] == head[i]);
        if i >= k {
            assert(head[i] == lead[i - k]);
            assert(lead.contains(lead[i - k]));
        } else {
            assert(head[i] == unread[i]);
        }
    }
    assert(find(told, ":"@) == Some(at));
    assert(told.skip(at + 1) =~= detail);
    let shown = "命令参数无法解析，未执行："@ + trimmed(detail);
    assert(shown.take(8) =~= "命令参数无法解析"@);
    assert(!begins(shown, "命令已被用户拒绝"@)) by {
        if begins(shown, "命令已被用户拒绝"@) {
            assert(shown.take(8)[2] == shown[2]);
            assert("命令已被用户拒绝"@[2] == '已');
            assert(shown[2] == '参');
        }
    }
}

/// Whether a result is neither that of a command nor about one.
pub open spec fn is_plain_result(result: Seq<char>) -> bool {
    &&& !begins(result, "Shell command was denied by the user"@)
    &&& !begins(result, "Shell command was not executed"@)
    &&& !begins(result, "命令已被用户拒绝"@)
    &&& !begins(result, "命令参数无法解析"@)
    &&& !occurs_in(result, "Exit code: 0"@)
    &&& exit_code(result).len() == 0
}

/// Other results are told by their tool: which file was written or edited, that a file was
/// read, whether a search found anything, and else in seventy-two columns.
pub proof fn results_are_told_by_their_tool(name: Seq<char>, result: Seq<char>)
    requires
        is_plain_result(result),
    ensures
        localized(result) == result,
        name == "write"@ && result_path(result).len() > 0 ==> compact_done(name, result)
            == shortened("已写入"@ + " "@ + result_path(result), 72),
        name == "edit"@ && result_path(result).len() > 0 ==> compact_done(name, result)
            == shortened("已编辑"@ + " "@ + result_path(result), 72),
        name == "write"@ && result_path(result).len() == 0 ==> compact_done(name, result)
            == "已写入"@,
        name == "edit"@ && result_path(result).len() == 0 ==> compact_done(name, result)
            == "已编辑"@,
        name == "read"@ || name == "read_pdf"@ || name == "read_docx"@ ==> compact_done(
            name,
            result,
        ) == "已读取"@,
        name == "grep"@ && begins(result, "No matches found"@) ==> compact_done(name, result)
            == "没有匹配结果"@,
        name == "grep"@ && !begins(result, "No matches found"@) ==> compact_done(name, result)
            == "已完成搜索"@,
        name != "write"@ && name != "edit"@ && name != "read"@ && name != "read_pdf"@ && name
            != "read_docx"@ && name != "grep"@ ==> compact_done(name, result) == shortened(
            result,
            72,
        ),
{
    lemma_tool_names();
}

/// A command that ended well is told as done.
pub proof fn successes_are_told(name: Seq<char>, result: Seq<char>, at: int)
    requires
        occurs_at(result, "Exit code: 0"@, at),
        !begins(result, "Shell command was denied by the user"@),
        !begins(result, "Shell command was not executed"@),
        !begins(result, "命令已被用户拒绝"@),
        !begins(result, "命令参数无法解析"@),
    ensures
        compact_done(name, result) == "已完成"@,
{
    assert(occurs_in(result, "Exit code: 0"@));
}

proof fn lemma_tool_names()
    ensures
        "read"@.len() == 4 && "read"@[0] == 'r',
        "edit"@.len() == 4 && "edit"@[0] == 'e',
        "grep"@.len() == 4 && "grep"@[0] == 'g',
        "write"@.len() == 5 && "write"@[0] == 'w',
        "shell"@.len() == 5 && "shell"@[0] == 's',
        "read_pdf"@.len() == 8,
        "read_docx"@.len() == 9,
{
    reveal_strlit("read");
    reveal_strlit("edit");
    reveal_strlit("grep");
    reveal_strlit("write");
    reveal_strlit("shell");
    reveal_strlit("read_pdf");
    reveal_strlit("read_docx");
}

/// A tool is called by its own name, and what it does is told in seventy-two columns; of a
/// command, and of an unknown tool, only that it runs.
pub proof fn tools_are_called_by_name(name: Seq<char>, description: Seq<char>)
    ensures
        display_name("read"@) == "读取"@,
        display_name("read_pdf"@) == "读取PDF"@,
        display_name("read_docx"@) == "读取DOCX"@,
        display_name("write"@) == "写入"@,
        display_name("edit"@) == "编辑"@,
        display_name("grep"@) == "搜索"@,
        display_name("shell"@) == "命令"@,
        name == "read"@ || name == "read_pdf"@ || name == "read_docx"@ || name == "write"@ || name
            == "edit"@ || name == "grep"@ ==> compact_description(name, description) == shortened(
            description,
            72,
        ),
        name == "shell"@ ==> compact_description(name, description) == shortened("执行命令"@, 72),
        name != "read"@ && name != "read_pdf"@ && name != "read_docx"@ && name != "write"@ && name
            != "edit"@ && name != "grep"@ && name != "shell"@ ==> compact_description(
            name,
            description,
        ) == shortened("调用工具"@, 72) && display_name(name) == "工具"@,
{
    lemma_tool_names();
}

/// The banner shows the model, the session and the workspace, within its width.
pub proof fn banners_show_where_work_is_done(
    width: usize,
    workspace: Seq<char>,
    provider: Seq<char>,
    model: Seq<char>,
    session_id: Seq<char>,
    count: nat,
) -> (parts: (Seq<char>, Seq<char>))
    requires
        width >= 18,
    ensures
        banner(width, workspace, provider, model, session_id, count) == parts.0 + card_line(
            width,
            two_columns(
                "模型  "@ + shortened(provider + "/"@ + model, (width - 18) as usize),
                "会话  "@ + shortened(banner_session(session_id, count), (width - 18) as usize),
                (width - 4) as usize,
            ),
            WHITE@,
        ) + card_line(
            width,
            "工作区  "@ + shortened_left(workspace, (width - 14) as usize),
            WHITE@,
        ) + parts.1 + card_bottom(width),
        parts.0 == "\n"@ + card_top(width) + card_line(width, "  NKU·RS"@, CYAN@) + card_line(
            width,
            "  南开 Rust 编程助手"@,
            BOLD_WHITE@,
        ) + card_line(
            width,
            "  本地代码代理 · 文件读写 · 命令审批 · 可回滚"@,
            MUTED@,
        ) + card_separator(width),
        parts.1 == card_line(
            width,
            "快捷命令  /帮助  /会话列表  /工具  /回滚"@,
            MUTED@,
        ),
{
    (
        "\n"@ + card_top(width) + card_line(width, "  NKU·RS"@, CYAN@) + card_line(
            width,
            "  南开 Rust 编程助手"@,
            BOLD_WHITE@,
        ) + card_line(
            width,
            "  本地代码代理 · 文件读写 · 命令审批 · 可回滚"@,
            MUTED@,
        ) + card_separator(width),
        card_line(width, "快捷命令  /帮助  /会话列表  /工具  /回滚"@, MUTED@),
    )
}

/// A tool at work is shown in its own colour, with what it does.
pub proof fn tools_at_work_are_shown(ui: TurnUiState, name: Seq<char>, description: Seq<char>)
    requires
        !ui.loading_visible,
        !ui.tool_line_active,
    ensures
        ({
            let colour = if name == "read"@ || name == "read_pdf"@ || name == "read_docx"@ {
                CYAN@
            } else if name == "write"@ {
                GREEN@
            } else if name == "edit"@ {
                YELLOW@
            } else if name == "grep"@ {
                BLUE@
            } else {
                WHITE@
            };
            after_tool(ui, name, description).0 == DIM@ + "│"@ + RESET@ + " "@ + colour
                + display_name(name) + RESET@ + " "@ + MUTED@ + compact_description(
                name,
                description,
            ) + RESET@
        }),
{
    let line = crate::cli::turn_ui::tool_line(name, description);
    assert(Seq::<char>::empty() + line =~= line);
}

} // verus!
