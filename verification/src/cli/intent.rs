//! What a line at the prompt means.
use vstd::prelude::*;
use crate::cli::style::{BOLD_CYAN, DIM, RESET};
use crate::text::{
    contains, lower, occurs_in, owned, remove_spaces, same, to_chars, to_lower, trim, trimmed,
    without_spaces,
};

verus! {

/// How the main loop ended.
#[derive(Debug, Clone, Copy, PartialEq, Eq, Structural)]
pub enum MainLoopStatus {
    ExitedByCommand,
    ExitedByEof,
}

/// What came in at the prompt.
#[derive(Debug, PartialEq, Eq)]
pub enum LoopEvent {
    Line { text: String },
    Eof,
    Interrupted,
    ReadFailed { reason: String },
}

/// The value of a `LoopEvent`.
pub enum LoopEventView {
    Line { text: Seq<char> },
    Eof,
    Interrupted,
    ReadFailed { reason: Seq<char> },
}

impl View for LoopEvent {
    type V = LoopEventView;

    open spec fn view(&self) -> LoopEventView {
        match self {
            LoopEvent::Line { text } => LoopEventView::Line {
                text: text@,
            },
            LoopEvent::Eof => LoopEventView::Eof,
            LoopEvent::Interrupted => LoopEventView::Interrupted,
            LoopEvent::ReadFailed { reason } => LoopEventView::ReadFailed {
                reason: reason@,
            },
        }
    }
}

/// What is done with what came in.
#[derive(Debug, PartialEq, Eq)]
pub enum LoopAction {
    /// Ask again.
    Prompt,
    /// Show a text and ask again.
    Notice { text: String },
    /// Show a text and stop.
    Stop { text: String, status: MainLoopStatus },
    /// Show the sessions that can be switched to.
    ShowSessions,
    /// Show the help.
    ShowHelp,
    /// Carry out a command.
    Command { input: String },
    /// Answer a message.
    Turn { input: String },
}

/// The value of a `LoopAction`.
pub enum LoopActionView {
    Prompt,
    Notice { text: Seq<char> },
    Stop { text: Seq<char>, status: MainLoopStatus },
    ShowSessions,
    ShowHelp,
    Command { input: Seq<char> },
    Turn { input: Seq<char> },
}

impl View for LoopAction {
    type V = LoopActionView;

    open spec fn view(&self) -> LoopActionView {
        match self {
            LoopAction::Prompt => LoopActionView::Prompt,
            LoopAction::Notice { text } => LoopActionView::Notice {
                text: text@,
            },
            LoopAction::Stop { text, status } => LoopActionView::Stop {
                text: text@,
                status: *status,
            },
            LoopAction::ShowSessions => LoopActionView::ShowSessions,
            LoopAction::ShowHelp => LoopActionView::ShowHelp,
            LoopAction::Command { input } => LoopActionView::Command {
                input: input@,
            },
            LoopAction::Turn { input } => LoopActionView::Turn {
                input: input@,
            },
        }
    }
}

/// The help.
pub const HELP_TEXT: &'static str = r#"可用命令：
  /帮助                     显示这份帮助
  /会话                     查看当前会话和可切换会话
  /会话 切换 <会话ID>       切换到已保存会话
  /会话列表                 列出所有保存的会话
  /历史                     查看最近 50 条消息
  /模型 [模型名]            查看或切换模型
  /清空                     清空消息历史并开启新会话
  /计划 <任务>              让模型生成执行计划
  /计划 状态                查看当前计划
  /计划 下一步              执行下一步
  /计划 执行                执行所有剩余步骤
  /计划 清空                清除当前计划
  /审批                     查看保存的命令审批规则
  /审批 清空                清除保存的命令审批规则
  /回滚 列表                列出所有回滚记录
  /回滚 预览 <记录ID>       预览一次回滚会修改什么
  /回滚 恢复 <记录ID>       应用一次回滚
  /回滚 文件 <记录ID> <路径> 只恢复某个文件
  /工具                     列出可用工具
  退出                      退出交互界面"#;

/// Whether a word means to leave, in Latin letters of any case; common slips count too.
pub open spec fn is_exit_word(word: Seq<char>) -> bool {
    ||| word == "exit"@
    ||| word == "quit"@
    ||| word == "q"@
    ||| word == "bye"@
    ||| word == "exti"@
    ||| word == "exi"@
    ||| word == "eit"@
}

/// Whether a text means to leave.
pub open spec fn is_exit_text(text: Seq<char>) -> bool {
    ||| text == "退出"@
    ||| text == "/退出"@
    ||| text == "结束"@
    ||| text == "再见"@
}

/// Whether a line means to leave.
pub open spec fn means_exit(line: Seq<char>) -> bool {
    is_exit_word(lower(trimmed(line))) || is_exit_text(trimmed(line))
}

/// Whether a line means to leave.
pub fn is_exit_command(input: &str) -> (r: bool)
    ensures
        r == means_exit(input@),
{
    let text = trim(input);
    let word = to_lower(text.as_str());
    let t = text.as_str();
    let w = word.as_str();
    (same(w, "exit") || same(w, "quit") || same(w, "q") || same(w, "bye") || same(w, "exti")
        || same(w, "exi") || same(w, "eit"))
        || (same(t, "退出") || same(t, "/退出") || same(t, "结束") || same(t, "再见"))
}

/// Whether a line asks for help without a command.
pub open spec fn means_help(line: Seq<char>) -> bool {
    let text = trimmed(line);
    ||| text == "帮助"@
    ||| text == "查看帮助"@
    ||| text == "命令"@
    ||| text == "可用命令"@
}

/// Whether a line asks for help without a command.
pub fn is_plain_help_request(input: &str) -> (r: bool)
    ensures
        r == means_help(input@),
{
    let text = trim(input);
    let t = text.as_str();
    same(t, "帮助") || same(t, "查看帮助") || same(t, "命令") || same(t, "可用命令")
}

/// Whether a text speaks of a task rather than of the agent itself.
pub open spec fn speaks_of_task(text: Seq<char>) -> bool {
    ||| occurs_in(text, "实现"@)
    ||| occurs_in(text, "开发"@)
    ||| occurs_in(text, "功能"@)
    ||| occurs_in(text, "代码"@)
    ||| occurs_in(text, "怎么"@)
    ||| occurs_in(text, "如何"@)
    ||| occurs_in(text, "为什么"@)
}

/// Whether a word names the switching of sessions.
pub open spec fn is_switch_word(word: Seq<char>) -> bool {
    ||| word == "session"@
    ||| word == "sessions"@
    ||| word == "switchsession"@
    ||| word == "changesession"@
}

/// Whether a text names the switching of sessions.
pub open spec fn is_switch_text(text: Seq<char>) -> bool {
    ||| text == "我想切换会话"@
    ||| text == "切换上下文"@
    ||| text == "换上下文"@
    ||| text == "选择会话"@
}

/// How long a text may be to count as a wish to switch sessions.
pub const MAX_SWITCH_CHARS: usize = 12;

/// Whether a short text wishes to switch sessions.
pub open spec fn is_switch_phrase(text: Seq<char>) -> bool {
    &&& text.len() <= MAX_SWITCH_CHARS
    &&& occurs_in(text, "会话"@)
    &&& occurs_in(text, "切换"@) || occurs_in(text, "换"@) || occurs_in(text, "选择"@)
}

/// Whether a line wishes to switch sessions: it must not speak of a task.
pub open spec fn means_switch(line: Seq<char>) -> bool {
    let text = without_spaces(line);
    &&& !speaks_of_task(text)
    &&& is_switch_word(lower(text)) || is_switch_phrase(text) || is_switch_text(text)
}

/// Whether a line wishes to switch sessions.
pub fn is_session_switch_request(input: &str) -> (r: bool)
    ensures
        r == means_switch(input@),
{
    let compact = remove_spaces(input);
    let word = to_lower(compact.as_str());
    let t = compact.as_str();
    let w = word.as_str();
    if contains(t, "实现") || contains(t, "开发") || contains(t, "功能") || contains(t, "代码")
        || contains(t, "怎么") || contains(t, "如何") || contains(t, "为什么") {
        return false;
    }
    (same(w, "session") || same(w, "sessions") || same(w, "switchsession")
        || same(w, "changesession"))
        || (to_chars(t).len() <= MAX_SWITCH_CHARS && contains(t, "会话")
            && (contains(t, "切换") || contains(t, "换") || contains(t, "选择")))
        || (same(t, "我想切换会话") || same(t, "切换上下文") || same(t, "换上下文")
            || same(t, "选择会话"))
}

/// What a line asks for without a command, if it does.
pub open spec fn plain_intent(line: Seq<char>) -> Option<LoopActionView> {
    if means_switch(line) {
        Some(LoopActionView::ShowSessions)
    } else if means_help(line) {
        Some(LoopActionView::ShowHelp)
    } else {
        None
    }
}

/// What a line asks for without a command, if it does.
pub fn find_plain_intent(input: &str) -> (r: Option<LoopAction>)
    ensures
        match r {
            Some(action) => plain_intent(input@) == Some(action@),
            None => plain_intent(input@) is None,
        },
{
    if is_session_switch_request(input) {
        Some(LoopAction::ShowSessions)
    } else if is_plain_help_request(input) {
        Some(LoopAction::ShowHelp)
    } else {
        None
    }
}

/// What is done with a line.
pub open spec fn line_action(line: Seq<char>) -> LoopActionView {
    let input = trimmed(line);
    if means_exit(input) {
        LoopActionView::Stop { text: "已退出。\n"@, status: MainLoopStatus::ExitedByCommand }
    } else if input.len() == 0 {
        LoopActionView::Prompt
    } else if plain_intent(input) is Some {
        plain_intent(input)->0
    } else if input[0] == '/' {
        LoopActionView::Command { input }
    } else {
        LoopActionView::Turn { input }
    }
}

/// What is done with what came in at the prompt.
pub open spec fn event_action(event: LoopEventView) -> LoopActionView {
    match event {
        LoopEventView::Line { text } => line_action(text),
        LoopEventView::Eof => LoopActionView::Stop {
            text: "\n"@,
            status: MainLoopStatus::ExitedByEof,
        },
        LoopEventView::Interrupted => LoopActionView::Notice {
            text: "^C（输入“退出”结束）\n"@,
        },
        LoopEventView::ReadFailed { reason } => LoopActionView::Stop {
            text: "读取输入失败："@ + reason + "\n"@,
            status: MainLoopStatus::ExitedByEof,
        },
    }
}

/// What is done with what came in at the prompt.
pub fn next_action(event: LoopEvent) -> (r: LoopAction)
    ensures
        r@ == event_action(event@),
{
    match event {
        LoopEvent::Line { text } => {
            let input = trim(text.as_str());
            if is_exit_command(input.as_str()) {
                return LoopAction::Stop {
                    text: owned("已退出。\n"),
                    status: MainLoopStatus::ExitedByCommand,
                };
            }
            let v = to_chars(input.as_str());
            if v.len() == 0 {
                return LoopAction::Prompt;
            }
            match find_plain_intent(input.as_str()) {
                Some(action) => action,
                None => {
                    if v[0] == '/' {
                        LoopAction::Command { input }
                    } else {
                        LoopAction::Turn { input }
                    }
                },
            }
        },
        LoopEvent::Eof => LoopAction::Stop {
            text: owned("\n"),
            status: MainLoopStatus::ExitedByEof,
        },
        LoopEvent::Interrupted => LoopAction::Notice {
            text: owned("^C（输入“退出”结束）\n"),
        },
        LoopEvent::ReadFailed { reason } => LoopAction::Stop {
            text: owned("读取输入失败：").concat(reason.as_str()).concat("\n"),
            status: MainLoopStatus::ExitedByEof,
        },
    }
}

/// A text that speaks of a task is never taken for a wish to switch sessions.
pub proof fn tasks_are_not_hijacked(line: Seq<char>)
    requires
        speaks_of_task(without_spaces(line)),
    ensures
        !means_switch(line),
{
}

/// The prompt.
pub open spec fn prompt_text() -> Seq<char> {
    "\n"@ + DIM@ + "╰─"@ + RESET@ + " "@ + BOLD_CYAN@ + "你>"@ + RESET@ + " "@
}

/// The prompt.
pub fn input_prompt() -> (r: String)
    ensures
        r@ == prompt_text(),
{
    owned("\n").concat(DIM).concat("╰─").concat(RESET).concat(" ").concat(BOLD_CYAN).concat(
        "你>",
    ).concat(RESET).concat(" ")
}

} // verus!
