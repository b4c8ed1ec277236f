//! What is shown while the agent answers.
use vstd::prelude::*;
use crate::cli::style::{
    BLUE, BOLD_CYAN, BOLD_GREEN, BOLD_WHITE, CYAN, DIM, ERASE_LINE, GREEN, MUTED, RESET, WHITE,
    YELLOW,
};
use crate::cli::width::{shortened, truncate_to_width};
use crate::number::{decimal, render_u64};
use crate::text::{
    begins, contains, lines, occurs_in, owned, same, split_first, split_lines, split_once,
    starts_with, to_chars, trim, trimmed,
};

verus! {

/// What a tool is called.
pub open spec fn display_name(name: Seq<char>) -> Seq<char> {
    if name == "read"@ {
        "读取"@
    } else if name == "read_pdf"@ {
        "读取PDF"@
    } else if name == "read_docx"@ {
        "读取DOCX"@
    } else if name == "write"@ {
        "写入"@
    } else if name == "edit"@ {
        "编辑"@
    } else if name == "grep"@ {
        "搜索"@
    } else if name == "shell"@ {
        "命令"@
    } else {
        "工具"@
    }
}

/// What a tool is called.
pub fn tool_display_name(name: &str) -> (r: &'static str)
    ensures
        r@ == display_name(name@),
{
    if same(name, "read") {
        "读取"
    } else if same(name, "read_pdf") {
        "读取PDF"
    } else if same(name, "read_docx") {
        "读取DOCX"
    } else if same(name, "write") {
        "写入"
    } else if same(name, "edit") {
        "编辑"
    } else if same(name, "grep") {
        "搜索"
    } else if same(name, "shell") {
        "命令"
    } else {
        "工具"
    }
}

/// The colour of a tool.
pub open spec fn tool_color(name: Seq<char>) -> Seq<char> {
    if name == "read"@ || name == "read_pdf"@ || name == "read_docx"@ {
        CYAN@
    } else if name == "write"@ {
        GREEN@
    } else if name == "edit"@ {
        YELLOW@
    } else if name == "grep"@ {
        BLUE@
    } else {
        WHITE@
    }
}

/// The colour of a tool.
pub fn color_of_tool(name: &str) -> (r: &'static str)
    ensures
        r@ == tool_color(name@),
{
    if same(name, "read") || same(name, "read_pdf") || same(name, "read_docx") {
        CYAN
    } else if same(name, "write") {
        GREEN
    } else if same(name, "edit") {
        YELLOW
    } else if same(name, "grep") {
        BLUE
    } else {
        WHITE
    }
}

/// The colour of a tool that is done.
pub open spec fn done_color(name: Seq<char>) -> Seq<char> {
    if name == "write"@ || name == "edit"@ {
        GREEN@
    } else {
        MUTED@
    }
}

/// The colour of a tool that is done.
pub fn color_of_done(name: &str) -> (r: &'static str)
    ensures
        r@ == done_color(name@),
{
    if same(name, "write") || same(name, "edit") {
        GREEN
    } else {
        MUTED
    }
}

/// The head of an answer that came after `elapsed` seconds.
pub open spec fn answer_head(elapsed: Seq<char>) -> Seq<char> {
    DIM@ + "╭─"@ + RESET@ + " "@ + BOLD_CYAN@ + "回答"@ + RESET@ + " "@ + MUTED@ + elapsed + "s"@
        + RESET@ + "\n"@
}

/// The head of an answer that came after `elapsed` seconds.
fn render_answer_head(elapsed: &str) -> (r: String)
    ensures
        r@ == answer_head(elapsed@),
{
    owned(DIM).concat("╭─").concat(RESET).concat(" ").concat(BOLD_CYAN).concat("回答")
        .concat(RESET).concat(" ").concat(MUTED).concat(elapsed).concat("s").concat(RESET)
        .concat("\n")
}

/// The line of a tool that is at work.
pub open spec fn tool_line(name: Seq<char>, description: Seq<char>) -> Seq<char> {
    DIM@ + "│"@ + RESET@ + " "@ + tool_color(name) + display_name(name) + RESET@ + " "@ + MUTED@
        + compact_description(name, description) + RESET@
}

/// The line of a tool that is at work.
fn render_tool_line(name: &str, description: &str) -> (r: String)
    ensures
        r@ == tool_line(name@, description@),
{
    owned(DIM).concat("│").concat(RESET).concat(" ").concat(color_of_tool(name))
        .concat(tool_display_name(name)).concat(RESET).concat(" ").concat(MUTED)
        .concat(compact_tool_description(name, description).as_str()).concat(RESET)
}

/// The line of a tool that is done.
pub open spec fn done_line(name: Seq<char>, done: Seq<char>) -> Seq<char> {
    DIM@ + "│"@ + RESET@ + " "@ + done_color(name) + "✓ "@ + display_name(name) + RESET@ + " "@
        + MUTED@ + compact_done(name, done) + RESET@ + "\n"@
}

/// The line of a tool that is done.
fn render_done_line(name: &str, done: &str) -> (r: String)
    ensures
        r@ == done_line(name@, done@),
{
    owned(DIM).concat("│").concat(RESET).concat(" ").concat(color_of_done(name)).concat("✓ ")
        .concat(tool_display_name(name)).concat(RESET).concat(" ").concat(MUTED)
        .concat(compact_tool_done(name, done).as_str()).concat(RESET).concat("\n")
}

/// The line that shows that the model is thinking.
pub open spec fn loading_line(frame: Seq<char>) -> Seq<char> {
    ERASE_LINE@ + DIM@ + "╭─"@ + RESET@ + " "@ + CYAN@ + frame + " 思考中"@ + RESET@ + " "@
        + MUTED@ + "正在分析上下文，等待模型响应"@ + RESET@
}

/// The line that shows that the model is thinking.
fn render_loading_line(frame: &str) -> (r: String)
    ensures
        r@ == loading_line(frame@),
{
    owned(ERASE_LINE).concat(DIM).concat("╭─").concat(RESET).concat(" ").concat(CYAN)
        .concat(frame).concat(" 思考中").concat(RESET).concat(" ").concat(MUTED)
        .concat("正在分析上下文，等待模型响应").concat(RESET)
}

/// The last line of an answer that took no tool.
pub open spec fn finish_line() -> Seq<char> {
    DIM@ + "╰─"@ + RESET@ + " "@ + BOLD_GREEN@ + "✓ 完成"@ + RESET@ + "\n"@
}

/// The last line of an answer that took no tool.
fn render_finish_line() -> (r: String)
    ensures
        r@ == finish_line(),
{
    owned(DIM).concat("╰─").concat(RESET).concat(" ").concat(BOLD_GREEN).concat("✓ 完成")
        .concat(RESET).concat("\n")
}

/// The last line of an answer that took tools.
pub open spec fn finish_tools_line(count: u32) -> Seq<char> {
    DIM@ + "╰─"@ + RESET@ + " "@ + BOLD_GREEN@ + "✓ 完成"@ + RESET@ + " "@ + MUTED@ + " · 工具 "@
        + decimal(count as nat) + " 次"@ + RESET@ + "\n"@
}

/// The last line of an answer that took tools.
fn render_finish_tools_line(count: u32) -> (r: String)
    ensures
        r@ == finish_tools_line(count),
{
    owned(DIM).concat("╰─").concat(RESET).concat(" ").concat(BOLD_GREEN).concat("✓ 完成")
        .concat(RESET).concat(" ").concat(MUTED).concat(" · 工具 ")
        .concat(render_u64(count as u64).as_str()).concat(" 次").concat(RESET).concat("\n")
}

/// The hint that changes can be undone.
pub open spec fn rollback_hint() -> Seq<char> {
    DIM@ + "  ↳"@ + RESET@ + " "@ + MUTED@ + "可用 /回滚 查看或恢复本轮文件改动。"@ + RESET@ + "\n"@
}

/// The hint that changes can be undone.
fn render_rollback_hint() -> (r: String)
    ensures
        r@ == rollback_hint(),
{
    owned(DIM).concat("  ↳").concat(RESET).concat(" ").concat(MUTED)
        .concat("可用 /回滚 查看或恢复本轮文件改动。").concat(RESET).concat("\n")
}


/// What is shown while a turn is at work.
#[derive(Debug, Clone, Copy, PartialEq, Eq, Structural)]
pub struct TurnUiState {
    /// Whether the answer has begun.
    pub answer_started: bool,
    /// Whether the next character of the answer starts a line.
    pub answer_line_start: bool,
    /// How many tools were called.
    pub tool_count: u32,
    /// Whether the line that shows thinking is there.
    pub loading_visible: bool,
    /// Which picture of that line comes next.
    pub loading_frame: usize,
    /// Whether the line of a tool at work is there.
    pub tool_line_active: bool,
}

/// The state before anything is shown.
pub open spec fn fresh_ui() -> TurnUiState {
    TurnUiState {
        answer_started: false,
        answer_line_start: true,
        tool_count: 0,
        loading_visible: false,
        loading_frame: 0,
        tool_line_active: false,
    }
}

impl Default for TurnUiState {
    fn default() -> (r: Self)
        ensures
            r == fresh_ui(),
    {
        TurnUiState {
            answer_started: false,
            answer_line_start: true,
            tool_count: 0,
            loading_visible: false,
            loading_frame: 0,
            tool_line_active: false,
        }
    }
}

/// What a tool call does, in one short line.
pub open spec fn compact_description(name: Seq<char>, description: Seq<char>) -> Seq<char> {
    shortened(
        if name == "shell"@ {
            "执行命令"@
        } else if name == "read"@ || name == "read_pdf"@ || name == "read_docx"@ || name == "write"@
            || name == "edit"@ || name == "grep"@ {
            description
        } else {
            "调用工具"@
        },
        72,
    )
}

/// What a tool call does, in one short line.
pub fn compact_tool_description(name: &str, description: &str) -> (r: String)
    ensures
        r@ == compact_description(name@, description@),
{
    let summary = if same(name, "shell") {
        "执行命令"
    } else if same(name, "read") || same(name, "read_pdf") || same(name, "read_docx") || same(
        name,
        "write",
    ) || same(name, "edit") || same(name, "grep") {
        description
    } else {
        "调用工具"
    };
    truncate_to_width(summary, 72)
}

/// What a tool gave, with what the user said to it in the user's language.
pub open spec fn localized(done: Seq<char>) -> Seq<char> {
    if begins(done, "Shell command was denied by the user"@) {
        "命令已被用户拒绝。"@
    } else if begins(done, "Shell command was not executed"@) {
        "命令参数无法解析，未执行："@ + match split_first(done, ":"@) {
            Some((_, detail)) => trimmed(detail),
            None => done,
        }
    } else {
        done
    }
}

/// What a tool gave, with what the user said to it in the user's language.
pub fn localize_tool_done(done: &str) -> (r: String)
    ensures
        r@ == localized(done@),
{
    if starts_with(done, "Shell command was denied by the user") {
        owned("命令已被用户拒绝。")
    } else if starts_with(done, "Shell command was not executed") {
        let detail = match split_once(done, ":") {
            Some((_, detail)) => trim(detail.as_str()),
            None => owned(done),
        };
        owned("命令参数无法解析，未执行：").concat(detail.as_str())
    } else {
        owned(done)
    }
}

/// The first line of a text.
pub open spec fn first_line(s: Seq<char>) -> Seq<char> {
    if lines(s).len() > 0 {
        lines(s)[0]
    } else {
        Seq::empty()
    }
}

fn first_line_of(s: &str) -> (r: String)
    ensures
        r@ == first_line(s@),
{
    let all = split_lines(s);
    proof {
        assert(lines(s@).len() == all@.len());
    }
    if all.len() > 0 {
        proof {
            assert(lines(s@)[0] == all@[0]@);
        }
        all[0].clone()
    } else {
        String::new()
    }
}

/// The exit code that a result names.
pub open spec fn exit_code(done: Seq<char>) -> Seq<char> {
    match split_first(done, "Exit code:"@) {
        Some((_, rest)) => trimmed(first_line(rest)),
        None => Seq::empty(),
    }
}

fn exit_code_of(done: &str) -> (r: String)
    ensures
        r@ == exit_code(done@),
{
    match split_once(done, "Exit code:") {
        Some((_, rest)) => trim(first_line_of(rest.as_str()).as_str()),
        None => String::new(),
    }
}

/// The path that the result of a file tool names.
pub open spec fn result_path(done: Seq<char>) -> Seq<char> {
    match split_first(done, ":"@) {
        Some((_, rest)) => match split_first(rest, " ("@) {
            Some((path, _)) => trimmed(path),
            None => trimmed(rest),
        },
        None => Seq::empty(),
    }
}

/// What a file tool did, in one short line.
pub open spec fn compact_file_done(done: Seq<char>, action: Seq<char>) -> Seq<char> {
    let path = result_path(done);
    if path.len() > 0 {
        shortened(action + " "@ + path, 72)
    } else {
        action
    }
}

/// What a file tool did, in one short line.
pub fn compact_file_tool_done(done: &str, action: &str) -> (r: String)
    ensures
        r@ == compact_file_done(done@, action@),
{
    let path = match split_once(done, ":") {
        Some((_, rest)) => match split_once(rest.as_str(), " (") {
            Some((path, _)) => trim(path.as_str()),
            None => trim(rest.as_str()),
        },
        None => String::new(),
    };
    if to_chars(path.as_str()).len() > 0 {
        truncate_to_width(owned(action).concat(" ").concat(path.as_str()).as_str(), 72)
    } else {
        owned(action)
    }
}

/// What a tool gave, in one short line.
pub open spec fn compact_done(name: Seq<char>, result: Seq<char>) -> Seq<char> {
    let done = localized(result);
    if begins(done, "命令已被用户拒绝"@) {
        "已拒绝"@
    } else if begins(done, "命令参数无法解析"@) {
        "未执行，参数无法解析"@
    } else if occurs_in(done, "Exit code: 0"@) {
        "已完成"@
    } else if exit_code(done).len() > 0 {
        "退出码 "@ + exit_code(done)
    } else if name == "write"@ {
        compact_file_done(done, "已写入"@)
    } else if name == "edit"@ {
        compact_file_done(done, "已编辑"@)
    } else if name == "read"@ || name == "read_pdf"@ || name == "read_docx"@ {
        "已读取"@
    } else if name == "grep"@ {
        if begins(done, "No matches found"@) {
            "没有匹配结果"@
        } else {
            "已完成搜索"@
        }
    } else {
        shortened(done, 72)
    }
}

/// What a tool gave, in one short line.
pub fn compact_tool_done(name: &str, result: &str) -> (r: String)
    ensures
        r@ == compact_done(name@, result@),
{
    let text = localize_tool_done(result);
    let done = text.as_str();
    if starts_with(done, "命令已被用户拒绝") {
        return owned("已拒绝");
    }
    if starts_with(done, "命令参数无法解析") {
        return owned("未执行，参数无法解析");
    }
    if contains(done, "Exit code: 0") {
        return owned("已完成");
    }
    let code = exit_code_of(done);
    if to_chars(code.as_str()).len() > 0 {
        return owned("退出码 ").concat(code.as_str());
    }
    if same(name, "write") {
        compact_file_tool_done(done, "已写入")
    } else if same(name, "edit") {
        compact_file_tool_done(done, "已编辑")
    } else if same(name, "read") || same(name, "read_pdf") || same(name, "read_docx") {
        owned("已读取")
    } else if same(name, "grep") {
        if starts_with(done, "No matches found") {
            owned("没有匹配结果")
        } else {
            owned("已完成搜索")
        }
    } else {
        truncate_to_width(done, 72)
    }
}

// ---------------------------------------------------------------------------
// The course of a turn
// ---------------------------------------------------------------------------

/// The border before each line of an answer.
pub open spec fn answer_border() -> Seq<char> {
    DIM@ + "│"@ + RESET@ + " "@ + BOLD_WHITE@
}

/// A part of the answer with a border before each line, and whether what follows starts a
/// line, where `at_start` says whether this does.
pub open spec fn bordered(token: Seq<char>, at_start: bool) -> (Seq<char>, bool)
    decreases token.len(),
{
    if token.len() == 0 {
        (Seq::empty(), at_start)
    } else {
        let (before, starts) = bordered(token.drop_last(), at_start);
        let c = token.last();
        if c == '\n' {
            (before.push(c), true)
        } else if starts {
            (before + answer_border() + seq![c], false)
        } else {
            (before.push(c), false)
        }
    }
}

/// A part of the answer with a border before each line.
pub fn render_answer_token(token: &str, at_line_start: bool) -> (r: (String, bool))
    ensures
        (r.0@, r.1) == bordered(token@, at_line_start),
{
    let v = to_chars(token);
    let mut out = String::new();
    let mut starts = at_line_start;
    let mut i: usize = 0;
    proof {
        assert(out@ =~= bordered(v@.take(0), at_line_start).0);
    }
    while i < v.len()
        invariant
            i <= v@.len(),
            v@ == token@,
            (out@, starts) == bordered(v@.take(i as int), at_line_start),
        decreases v.len() - i,
    {
        let c = v[i];
        proof {
            assert(v@.take(i + 1).drop_last() =~= v@.take(i as int));
        }
        let ghost before = out@;
        if starts && c != '\n' {
            let border = owned(DIM).concat("│").concat(RESET).concat(" ").concat(BOLD_WHITE);
            out.append(border.as_str());
            starts = false;
            proof {
                assert((before + answer_border()).push(c) =~= before + answer_border() + seq![c]);
            }
        }
        out.push(c);
        if c == '\n' {
            starts = true;
        }
        i += 1;
    }
    proof {
        assert(v@.take(token@.len() as int) =~= token@);
    }
    (out, starts)
}

/// What clears the line that is there only for a moment.
pub open spec fn clear_text(ui: TurnUiState) -> Seq<char> {
    if ui.loading_visible || ui.tool_line_active {
        ERASE_LINE@
    } else {
        Seq::empty()
    }
}

/// The state once that line is cleared.
pub open spec fn cleared(ui: TurnUiState) -> TurnUiState {
    TurnUiState { loading_visible: false, tool_line_active: false, ..ui }
}

/// The pictures that show thinking.
pub open spec fn frame_text(frame: usize) -> Seq<char> {
    if frame % 4 == 0 {
        "◐"@
    } else if frame % 4 == 1 {
        "◓"@
    } else if frame % 4 == 2 {
        "◑"@
    } else {
        "◒"@
    }
}

/// The picture behind another; behind the largest number comes 0.
pub open spec fn frame_after(frame: usize) -> usize {
    if frame == usize::MAX {
        0
    } else {
        (frame + 1) as usize
    }
}

/// What is shown, and the state behind it, while the model is thinking: nothing once the
/// answer has begun or a tool is at work.
pub open spec fn after_tick(ui: TurnUiState) -> (Seq<char>, TurnUiState) {
    if ui.answer_started || ui.tool_line_active {
        (Seq::empty(), ui)
    } else {
        (
            loading_line(frame_text(ui.loading_frame)),
            TurnUiState {
                loading_frame: frame_after(ui.loading_frame),
                loading_visible: true,
                ..ui
            },
        )
    }
}

/// What is shown, and the state behind it, when a part of the answer comes.
pub open spec fn after_token(ui: TurnUiState, token: Seq<char>, elapsed: Seq<char>) -> (
    Seq<char>,
    TurnUiState,
) {
    let (text, starts) = bordered(token, ui.answer_line_start);
    (
        clear_text(ui) + if ui.answer_started {
            Seq::empty()
        } else {
            answer_head(elapsed)
        } + text,
        TurnUiState { answer_started: true, answer_line_start: starts, ..cleared(ui) },
    )
}

/// What is shown, and the state behind it, when a tool starts.
pub open spec fn after_tool(ui: TurnUiState, name: Seq<char>, description: Seq<char>) -> (
    Seq<char>,
    TurnUiState,
) {
    (
        clear_text(ui) + tool_line(name, description),
        TurnUiState {
            tool_count: if ui.tool_count < u32::MAX {
                (ui.tool_count + 1) as u32
            } else {
                ui.tool_count
            },
            tool_line_active: true,
            ..cleared(ui)
        },
    )
}

/// What is shown, and the state behind it, when a tool is done.
pub open spec fn after_tool_done(ui: TurnUiState, name: Seq<char>, done: Seq<char>) -> (
    Seq<char>,
    TurnUiState,
) {
    (clear_text(ui) + done_line(name, done), cleared(ui))
}

/// What is shown at the end of a turn.
pub open spec fn finish_text(ui: TurnUiState, succeeded: bool) -> Seq<char> {
    if !succeeded {
        clear_text(ui) + "\n"@
    } else {
        let answer = if !ui.answer_started {
            Seq::empty()
        } else {
            RESET@ + if ui.answer_line_start {
                Seq::empty()
            } else {
                "\n"@
            } + if ui.tool_count > 0 {
                finish_tools_line(ui.tool_count)
            } else {
                finish_line()
            }
        };
        let hint = if ui.tool_count > 0 {
            rollback_hint()
        } else {
            Seq::empty()
        };
        clear_text(ui) + answer + hint + "\n"@
    }
}

impl TurnUiState {
    /// Clears the line that is there only for a moment: what has to be shown for it.
    pub fn clear_transient_line(&mut self) -> (r: String)
        ensures
            r@ == clear_text(*old(self)),
            *final(self) == cleared(*old(self)),
    {
        let r = if self.loading_visible || self.tool_line_active {
            owned(ERASE_LINE)
        } else {
            String::new()
        };
        self.loading_visible = false;
        self.tool_line_active = false;
        r
    }

    /// What is shown while the model is thinking.
    pub fn tick_loading_line(&mut self) -> (r: String)
        ensures
            (r@, *final(self)) == after_tick(*old(self)),
    {
        if self.answer_started || self.tool_line_active {
            return String::new();
        }
        let k: usize = self.loading_frame % 4;
        let frame = if k == 0 {
            "◐"
        } else if k == 1 {
            "◓"
        } else if k == 2 {
            "◑"
        } else {
            "◒"
        };
        let next: usize = if self.loading_frame == usize::MAX {
            0
        } else {
            self.loading_frame + 1
        };
        self.loading_frame = next;
        self.loading_visible = true;
        render_loading_line(frame)
    }

    /// What is shown when a part of the answer comes.
    pub fn on_token(&mut self, token: &str, elapsed: &str) -> (r: String)
        ensures
            (r@, *final(self)) == after_token(*old(self), token@, elapsed@),
    {
        let start = self.clear_transient_line();
        let head = if self.answer_started {
            String::new()
        } else {
            render_answer_head(elapsed)
        };
        let (text, starts) = render_answer_token(token, self.answer_line_start);
        self.answer_started = true;
        self.answer_line_start = starts;
        start.concat(head.as_str()).concat(text.as_str())
    }

    /// What is shown when a tool starts.
    pub fn on_tool(&mut self, name: &str, description: &str) -> (r: String)
        ensures
            (r@, *final(self)) == after_tool(*old(self), name@, description@),
    {
        let start = self.clear_transient_line();
        if self.tool_count < u32::MAX {
            self.tool_count = self.tool_count + 1;
        }
        self.tool_line_active = true;
        start.concat(render_tool_line(name, description).as_str())
    }

    /// What is shown when a tool is done.
    pub fn on_tool_done(&mut self, name: &str, done: &str) -> (r: String)
        ensures
            (r@, *final(self)) == after_tool_done(*old(self), name@, done@),
    {
        let start = self.clear_transient_line();
        start.concat(render_done_line(name, done).as_str())
    }

    /// What is shown at the end of a turn.
    pub fn finish(&mut self, succeeded: bool) -> (r: String)
        ensures
            r@ == finish_text(*old(self), succeeded),
            *final(self) == cleared(*old(self)),
    {
        let start = self.clear_transient_line();
        if !succeeded {
            return start.concat("\n");
        }
        let mut answer = String::new();
        if self.answer_started {
            answer = owned(RESET);
            if !self.answer_line_start {
                answer = answer.concat("\n");
            } else {
                proof {
                    assert(RESET@ + Seq::<char>::empty() =~= RESET@);
                }
            }
            if self.tool_count > 0 {
                answer = answer.concat(render_finish_tools_line(self.tool_count).as_str());
            } else {
                answer = answer.concat(render_finish_line().as_str());
            }
        }
        let hint = if self.tool_count > 0 {
            render_rollback_hint()
        } else {
            String::new()
        };
        start.concat(answer.as_str()).concat(hint.as_str()).concat("\n")
    }
}

// ---------------------------------------------------------------------------
// Laws
// ---------------------------------------------------------------------------

/// The texts that are shown for parts of an answer do not depend on where it was cut.
pub proof fn borders_do_not_depend_on_pieces(a: Seq<char>, b: Seq<char>, at_start: bool)
    ensures
        ({
            let (first, starts) = bordered(a, at_start);
            let (second, end) = bordered(b, starts);
            bordered(a + b, at_start) == (first + second, end)
        }),
    decreases b.len(),
{
    let (first, starts) = bordered(a, at_start);
    if b.len() == 0 {
        assert(a + b =~= a);
        assert(first + Seq::<char>::empty() =~= first);
    } else {
        let front = b.drop_last();
        borders_do_not_depend_on_pieces(a, front, at_start);
        let (middle, s) = bordered(front, starts);
        assert((a + b).drop_last() =~= a + front);
        assert((a + b).last() == b.last());
        let c = b.last();
        assert((first + middle).push(c) =~= first + middle.push(c));
        assert(first + middle + answer_border() + seq![c] =~= first + (middle + answer_border()
            + seq![c]));
    }
}

/// A line that is there only for a moment is always cleared before anything else is shown.
pub proof fn transient_lines_are_cleared(ui: TurnUiState, name: Seq<char>, text: Seq<char>)
    requires
        ui.loading_visible || ui.tool_line_active,
    ensures
        begins(after_token(ui, text, name).0, ERASE_LINE@),
        begins(after_tool(ui, name, text).0, ERASE_LINE@),
        begins(after_tool_done(ui, name, text).0, ERASE_LINE@),
        begins(finish_text(ui, true), ERASE_LINE@),
        begins(finish_text(ui, false), ERASE_LINE@),
{
    let e = ERASE_LINE@;
    let t1 = after_token(ui, text, name).0;
    assert(t1.take(e.len() as int) =~= e);
    let t2 = after_tool(ui, name, text).0;
    assert(t2.take(e.len() as int) =~= e);
    let t3 = after_tool_done(ui, name, text).0;
    assert(t3.take(e.len() as int) =~= e);
    let t4 = finish_text(ui, true);
    assert(t4.take(e.len() as int) =~= e);
    let t5 = finish_text(ui, false);
    assert(t5.take(e.len() as int) =~= e);
}

} // verus!
