//! Commands at the prompt, and what they show.
use vstd::prelude::*;
use crate::cli::approval::{
    command_approval_rule_views, CommandApprovalRule, CommandApprovalRuleView,
};
use crate::cli::width::{shortened, truncate_str};
use crate::message::{
    call_views, message_views, Message, MessageRole, MessageView, ToolCall, ToolCallView,
};
use crate::number::{decimal, render_u64, render_usize};
use crate::rollback::record::{
    file_rollback_preview_views, restored_file_views, rollback_record_summary_views,
    FileRollbackPreview, FileRollbackPreviewView, RestoreReport, RestoreReportView,
    RestoredFileView, RollbackPreview, RollbackPreviewView, RollbackRecordSummary,
    RollbackRecordSummaryView,
};
use crate::rollback::snapshot::RestoreAction;
use crate::session::SessionSummary;
use crate::text::{
    after_prefix, join, joined, lemma_views_push, lines, owned, same, split_lines, split_words,
    strip_prefix, to_chars, views, words,
};

verus! {

/// What a command asks for.
#[derive(Debug, PartialEq, Eq)]
pub enum ReplCommand {
    /// Nothing: there is no command on the line.
    Nothing,
    Help,
    SwitchSession { id: String },
    SessionOverview,
    SessionList,
    History,
    ShowModel,
    SetModel { model: String },
    NewSession,
    Plan { args: Vec<String> },
    ShowApprovals,
    ClearApprovals,
    RollbackList,
    RollbackPreview { id: String },
    RollbackApply { id: String },
    RollbackFile { id: String, path: String },
    UnknownRollback { name: String },
    Tools,
    Unknown { name: String },
    /// A command that lacks something, with its usage.
    Usage { text: String },
}

/// The value of a `ReplCommand`.
pub enum ReplCommandView {
    Nothing,
    Help,
    SwitchSession { id: Seq<char> },
    SessionOverview,
    SessionList,
    History,
    ShowModel,
    SetModel { model: Seq<char> },
    NewSession,
    Plan { args: Seq<Seq<char>> },
    ShowApprovals,
    ClearApprovals,
    RollbackList,
    RollbackPreview { id: Seq<char> },
    RollbackApply { id: Seq<char> },
    RollbackFile { id: Seq<char>, path: Seq<char> },
    UnknownRollback { name: Seq<char> },
    Tools,
    Unknown { name: Seq<char> },
    Usage { text: Seq<char> },
}

impl View for ReplCommand {
    type V = ReplCommandView;

    open spec fn view(&self) -> ReplCommandView {
        match self {
            ReplCommand::Nothing => ReplCommandView::Nothing,
            ReplCommand::Help => ReplCommandView::Help,
            ReplCommand::SwitchSession { id } => ReplCommandView::SwitchSession {
                id: id@,
            },
            ReplCommand::SessionOverview => ReplCommandView::SessionOverview,
            ReplCommand::SessionList => ReplCommandView::SessionList,
            ReplCommand::History => ReplCommandView::History,
            ReplCommand::ShowModel => ReplCommandView::ShowModel,
            ReplCommand::SetModel { model } => ReplCommandView::SetModel {
                model: model@,
            },
            ReplCommand::NewSession => ReplCommandView::NewSession,
            ReplCommand::Plan { args } => ReplCommandView::Plan {
                args: views(args@),
            },
            ReplCommand::ShowApprovals => ReplCommandView::ShowApprovals,
            ReplCommand::ClearApprovals => ReplCommandView::ClearApprovals,
            ReplCommand::RollbackList => ReplCommandView::RollbackList,
            ReplCommand::RollbackPreview { id } => ReplCommandView::RollbackPreview {
                id: id@,
            },
            ReplCommand::RollbackApply { id } => ReplCommandView::RollbackApply {
                id: id@,
            },
            ReplCommand::RollbackFile { id, path } => ReplCommandView::RollbackFile {
                id: id@,
                path: path@,
            },
            ReplCommand::UnknownRollback { name } => ReplCommandView::UnknownRollback {
                name: name@,
            },
            ReplCommand::Tools => ReplCommandView::Tools,
            ReplCommand::Unknown { name } => ReplCommandView::Unknown {
                name: name@,
            },
            ReplCommand::Usage { text } => ReplCommandView::Usage {
                text: text@,
            },
        }
    }
}

/// What the words behind the session command ask for.
pub open spec fn session_command(args: Seq<Seq<char>>) -> ReplCommandView {
    if args.len() > 0 && (args[0] == "resume"@ || args[0] == "切换"@) {
        if args.len() > 1 {
            ReplCommandView::SwitchSession { id: args[1] }
        } else {
            ReplCommandView::Usage { text: "用法：/会话 切换 <会话ID>"@ }
        }
    } else {
        ReplCommandView::SessionOverview
    }
}

/// What the words behind the rollback command ask for.
pub open spec fn rollback_command(args: Seq<Seq<char>>) -> ReplCommandView {
    if args.len() == 0 || args[0] == "list"@ || args[0] == "列表"@ {
        ReplCommandView::RollbackList
    } else if args[0] == "preview"@ || args[0] == "预览"@ {
        if args.len() > 1 {
            ReplCommandView::RollbackPreview { id: args[1] }
        } else {
            ReplCommandView::Usage { text: "用法：/回滚 预览 <记录ID>"@ }
        }
    } else if args[0] == "apply"@ || args[0] == "恢复"@ {
        if args.len() > 1 {
            ReplCommandView::RollbackApply { id: args[1] }
        } else {
            ReplCommandView::Usage { text: "用法：/回滚 恢复 <记录ID>"@ }
        }
    } else if args[0] == "file"@ || args[0] == "文件"@ {
        if args.len() > 2 {
            ReplCommandView::RollbackFile { id: args[1], path: args[2] }
        } else {
            ReplCommandView::Usage { text: "用法：/回滚 文件 <记录ID> <路径>"@ }
        }
    } else {
        ReplCommandView::UnknownRollback { name: args[0] }
    }
}

/// What the words of a command ask for.
pub open spec fn command_of_words(ws: Seq<Seq<char>>) -> ReplCommandView {
    if ws.len() == 0 {
        ReplCommandView::Nothing
    } else {
        let name = ws[0];
        let args = ws.drop_first();
        if name == "help"@ || name == "帮助"@ {
            ReplCommandView::Help
        } else if name == "session"@ || name == "会话"@ {
            session_command(args)
        } else if name == "sessions"@ || name == "会话列表"@ {
            ReplCommandView::SessionList
        } else if name == "history"@ || name == "历史"@ {
            ReplCommandView::History
        } else if name == "model"@ || name == "模型"@ {
            if args.len() > 0 {
                ReplCommandView::SetModel { model: args[0] }
            } else {
                ReplCommandView::ShowModel
            }
        } else if name == "clear"@ || name == "清空"@ {
            ReplCommandView::NewSession
        } else if name == "plan"@ || name == "计划"@ {
            ReplCommandView::Plan { args }
        } else if name == "approvals"@ || name == "审批"@ {
            if args.len() > 0 && (args[0] == "clear"@ || args[0] == "清空"@) {
                ReplCommandView::ClearApprovals
            } else {
                ReplCommandView::ShowApprovals
            }
        } else if name == "rollback"@ || name == "回滚"@ {
            rollback_command(args)
        } else if name == "tools"@ || name == "工具"@ {
            ReplCommandView::Tools
        } else {
            ReplCommandView::Unknown { name }
        }
    }
}

/// What a line asks for: the slash before a command may be left out.
pub open spec fn command_of(line: Seq<char>) -> ReplCommandView {
    command_of_words(
        words(
            match after_prefix(line, "/"@) {
                Some(rest) => rest,
                None => line,
            },
        ),
    )
}

fn parse_session_command(args: &Vec<String>) -> (r: ReplCommand)
    ensures
        r@ == session_command(views(args@)),
{
    proof {
        lemma_views_at(args@);
    }
    if args.len() > 0 && (same(args[0].as_str(), "resume") || same(args[0].as_str(), "切换")) {
        if args.len() > 1 {
            ReplCommand::SwitchSession { id: args[1].clone() }
        } else {
            ReplCommand::Usage { text: owned("用法：/会话 切换 <会话ID>") }
        }
    } else {
        ReplCommand::SessionOverview
    }
}

fn parse_rollback_command(args: &Vec<String>) -> (r: ReplCommand)
    ensures
        r@ == rollback_command(views(args@)),
{
    proof {
        lemma_views_at(args@);
    }
    if args.len() == 0 {
        return ReplCommand::RollbackList;
    }
    let sub = args[0].as_str();
    if same(sub, "list") || same(sub, "列表") {
        ReplCommand::RollbackList
    } else if same(sub, "preview") || same(sub, "预览") {
        if args.len() > 1 {
            ReplCommand::RollbackPreview { id: args[1].clone() }
        } else {
            ReplCommand::Usage { text: owned("用法：/回滚 预览 <记录ID>") }
        }
    } else if same(sub, "apply") || same(sub, "恢复") {
        if args.len() > 1 {
            ReplCommand::RollbackApply { id: args[1].clone() }
        } else {
            ReplCommand::Usage { text: owned("用法：/回滚 恢复 <记录ID>") }
        }
    } else if same(sub, "file") || same(sub, "文件") {
        if args.len() > 2 {
            ReplCommand::RollbackFile { id: args[1].clone(), path: args[2].clone() }
        } else {
            ReplCommand::Usage { text: owned("用法：/回滚 文件 <记录ID> <路径>") }
        }
    } else {
        ReplCommand::UnknownRollback { name: args[0].clone() }
    }
}

proof fn lemma_views_at(v: Seq<String>)
    ensures
        views(v).len() == v.len(),
        forall|i: int| 0 <= i < v.len() ==> #[trigger] views(v)[i] == v[i]@,
{
}

/// What a line asks for.
pub fn parse_command(line: &str) -> (r: ReplCommand)
    ensures
        r@ == command_of(line@),
{
    let body = match strip_prefix(line, "/") {
        Some(rest) => rest,
        None => owned(line),
    };
    let mut args = split_words(body.as_str());
    let ghost ws = words(body@);
    proof {
        lemma_views_at(args@);
    }
    if args.len() == 0 {
        return ReplCommand::Nothing;
    }
    proof {
        assert(views(args@.remove(0)) =~= ws.drop_first());
    }
    let first = args.remove(0);
    let name = first.as_str();
    proof {
        lemma_views_at(args@);
        assert(name@ == ws[0]);
    }
    if same(name, "help") || same(name, "帮助") {
        ReplCommand::Help
    } else if same(name, "session") || same(name, "会话") {
        parse_session_command(&args)
    } else if same(name, "sessions") || same(name, "会话列表") {
        ReplCommand::SessionList
    } else if same(name, "history") || same(name, "历史") {
        ReplCommand::History
    } else if same(name, "model") || same(name, "模型") {
        if args.len() > 0 {
            ReplCommand::SetModel { model: args[0].clone() }
        } else {
            ReplCommand::ShowModel
        }
    } else if same(name, "clear") || same(name, "清空") {
        ReplCommand::NewSession
    } else if same(name, "plan") || same(name, "计划") {
        ReplCommand::Plan { args }
    } else if same(name, "approvals") || same(name, "审批") {
        if args.len() > 0 && (same(args[0].as_str(), "clear") || same(args[0].as_str(), "清空")) {
            ReplCommand::ClearApprovals
        } else {
            ReplCommand::ShowApprovals
        }
    } else if same(name, "rollback") || same(name, "回滚") {
        parse_rollback_command(&args)
    } else if same(name, "tools") || same(name, "工具") {
        ReplCommand::Tools
    } else {
        ReplCommand::Unknown { name: first }
    }
}

// ---------------------------------------------------------------------------
// What commands show
// ---------------------------------------------------------------------------

/// The tools.
pub const TOOLS_TEXT: &'static str = "可用工具：\n  read    — 读取文件内容\n  write   — 写入文件内容\n  edit    — 替换文件中的文本\n  grep    — 用正则搜索代码\n  shell   — 执行命令行命令\n  read_pdf — 提取 PDF 文本\n  read_docx — 提取 Word 文本\n";

/// The usage of the rollback command.
pub const ROLLBACK_USAGE: &'static str = "用法：/回滚 [列表|预览 <记录ID>|恢复 <记录ID>|文件 <记录ID> <路径>]\n";

/// How many messages the history shows.
pub const MAX_VISIBLE_MESSAGES: usize = 50;

/// What a role is called.
pub open spec fn role_label(role: MessageRole) -> Seq<char> {
    match role {
        MessageRole::System => "系统"@,
        MessageRole::User => "用户"@,
        MessageRole::Assistant => "助手"@,
        MessageRole::Tool => "工具"@,
    }
}

/// What a role is called.
pub fn message_role_label(role: &MessageRole) -> (r: &'static str)
    ensures
        r@ == role_label(*role),
{
    match role {
        MessageRole::System => "系统",
        MessageRole::User => "用户",
        MessageRole::Assistant => "助手",
        MessageRole::Tool => "工具",
    }
}

/// The names of tool calls.
pub open spec fn call_names(calls: Seq<ToolCallView>) -> Seq<Seq<char>> {
    Seq::new(calls.len(), |i: int| calls[i].name)
}

fn collect_names(calls: &Vec<ToolCall>) -> (r: Vec<String>)
    ensures
        views(r@) == call_names(call_views(calls@)),
{
    let mut r: Vec<String> = Vec::new();
    let mut i: usize = 0;
    let ghost all = call_names(call_views(calls@));
    while i < calls.len()
        invariant
            i <= calls@.len(),
            all == call_names(call_views(calls@)),
            views(r@) == all.take(i as int),
        decreases calls.len() - i,
    {
        let name = calls[i].name.clone();
        proof {
            lemma_views_push(r@, name);
            assert(all.take(i + 1) =~= all.take(i as int).push(name@));
        }
        r.push(name);
        i += 1;
    }
    proof {
        assert(all.take(calls@.len() as int) =~= all);
    }
    r
}

/// One message of the history.
pub open spec fn history_line(i: nat, m: MessageView) -> Seq<char> {
    decimal(i + 1) + " "@ + role_label(m.role) + "："@ + shortened(m.content, 200)
        + match m.tool_calls {
        Some(calls) => if calls.len() > 0 {
            " [工具调用："@ + joined(call_names(calls), ", "@) + "]"@
        } else {
            Seq::empty()
        },
        None => Seq::empty(),
    } + match m.tool_call_id {
        Some(id) => " [工具调用ID："@ + id + "]"@,
        None => Seq::empty(),
    } + "\n"@
}

fn render_history_line(i: usize, m: &Message) -> (r: String)
    requires
        i < usize::MAX,
    ensures
        r@ == history_line(i as nat, m@),
{
    let calls = match &m.tool_calls {
        Some(calls) => {
            proof {
                assert(call_views(calls@).len() == calls@.len());
            }
            if calls.len() > 0 {
                owned(" [工具调用：").concat(join(&collect_names(calls), ", ").as_str()).concat(
                    "]",
                )
            } else {
                String::new()
            }
        },
        None => String::new(),
    };
    let id = match &m.tool_call_id {
        Some(id) => owned(" [工具调用ID：").concat(id.as_str()).concat("]"),
        None => String::new(),
    };
    render_usize(i + 1).concat(" ").concat(message_role_label(&m.role)).concat("：").concat(
        truncate_str(m.content.as_str(), 200).as_str(),
    ).concat(calls.as_str()).concat(id.as_str()).concat("\n")
}

/// The messages of the history from `start` up to `end`.
pub open spec fn history_lines(messages: Seq<MessageView>, start: nat, end: nat) -> Seq<char>
    decreases end,
{
    if end <= start {
        Seq::empty()
    } else {
        history_lines(messages, start, (end - 1) as nat) + history_line(
            (end - 1) as nat,
            messages[end - 1],
        )
    }
}

/// The last messages of the history.
pub open spec fn history_text(messages: Seq<MessageView>) -> Seq<char> {
    if messages.len() == 0 {
        "历史消息为空。\n"@
    } else if messages.len() > MAX_VISIBLE_MESSAGES {
        "共有 "@ + decimal(messages.len()) + " 条消息，下面显示最近 50 条。\n"@ + history_lines(
            messages,
            (messages.len() - MAX_VISIBLE_MESSAGES) as nat,
            messages.len(),
        )
    } else {
        history_lines(messages, 0, messages.len())
    }
}

/// The last messages of the history.
pub fn render_history(messages: &Vec<Message>) -> (r: String)
    ensures
        r@ == history_text(message_views(messages@)),
{
    let ghost all = message_views(messages@);
    proof {
        assert(all.len() == messages@.len());
    }
    let total: usize = messages.len();
    if total == 0 {
        return owned("历史消息为空。\n");
    }
    let start: usize = if total > MAX_VISIBLE_MESSAGES {
        total - MAX_VISIBLE_MESSAGES
    } else {
        0
    };
    let mut lines = String::new();
    let mut i: usize = start;
    proof {
        assert(lines@ =~= history_lines(all, start as nat, start as nat));
    }
    while i < total
        invariant
            start <= i <= total == messages@.len(),
            all == message_views(messages@),
            lines@ == history_lines(all, start as nat, i as nat),
        decreases total - i,
    {
        proof {
            assert(all[i as int] == messages@[i as int]@);
        }
        lines.append(render_history_line(i, &messages[i]).as_str());
        i += 1;
    }
    if total > MAX_VISIBLE_MESSAGES {
        owned("共有 ").concat(render_usize(total).as_str()).concat(
            " 条消息，下面显示最近 50 条。\n",
        ).concat(lines.as_str())
    } else {
        lines
    }
}

/// One approval rule.
pub open spec fn rule_line(rule: CommandApprovalRuleView) -> Seq<char> {
    "  允许以 `"@ + rule.prefix + "` 开头的命令\n"@
}

/// Approval rules.
pub open spec fn rule_lines(rules: Seq<CommandApprovalRuleView>) -> Seq<char>
    decreases rules.len(),
{
    if rules.len() == 0 {
        Seq::empty()
    } else {
        rule_lines(rules.drop_last()) + rule_line(rules.last())
    }
}

/// What is shown of the approval rules.
pub open spec fn rules_text(rules: Seq<CommandApprovalRuleView>) -> Seq<char> {
    if rules.len() == 0 {
        "没有保存的命令审批规则。\n"@
    } else {
        decimal(rules.len()) + " 条命令审批规则：\n"@ + rule_lines(rules)
            + "使用 /审批 清空 删除全部规则。\n"@
    }
}

/// What is shown of the approval rules.
pub fn render_rules(rules: &Vec<CommandApprovalRule>) -> (r: String)
    ensures
        r@ == rules_text(command_approval_rule_views(rules@)),
{
    let ghost all = command_approval_rule_views(rules@);
    proof {
        assert(all.len() == rules@.len());
    }
    if rules.len() == 0 {
        return owned("没有保存的命令审批规则。\n");
    }
    let mut lines = String::new();
    let mut i: usize = 0;
    proof {
        assert(lines@ =~= rule_lines(all.take(0)));
    }
    while i < rules.len()
        invariant
            i <= rules@.len(),
            all == command_approval_rule_views(rules@),
            lines@ == rule_lines(all.take(i as int)),
        decreases rules.len() - i,
    {
        proof {
            assert(all.take(i + 1).drop_last() =~= all.take(i as int));
            assert(all.take(i + 1).last() == rules@[i as int]@);
        }
        let line = owned("  允许以 `").concat(rules[i].prefix.as_str()).concat(
            "` 开头的命令\n",
        );
        lines.append(line.as_str());
        i += 1;
    }
    proof {
        assert(all.take(rules@.len() as int) =~= all);
    }
    render_usize(rules.len()).concat(" 条命令审批规则：\n").concat(lines.as_str()).concat(
        "使用 /审批 清空 删除全部规则。\n",
    )
}

/// One rollback record.
pub open spec fn record_line(r: RollbackRecordSummaryView) -> Seq<char> {
    "  "@ + r.id + "  轮次="@ + decimal(r.turn_index as nat) + "  工具="@ + r.tool_name
        + "  文件=["@ + joined(r.changed_files, ", "@) + "]\n"@
}

/// Rollback records.
pub open spec fn record_lines(records: Seq<RollbackRecordSummaryView>) -> Seq<char>
    decreases records.len(),
{
    if records.len() == 0 {
        Seq::empty()
    } else {
        record_lines(records.drop_last()) + record_line(records.last())
    }
}

/// What is shown of the rollback records.
pub open spec fn records_text(records: Seq<RollbackRecordSummaryView>) -> Seq<char> {
    if records.len() == 0 {
        "没有回滚记录。\n"@
    } else {
        decimal(records.len()) + " 条回滚记录：\n"@ + record_lines(records)
    }
}

/// What is shown of the rollback records.
pub fn render_records(records: &Vec<RollbackRecordSummary>) -> (r: String)
    ensures
        r@ == records_text(rollback_record_summary_views(records@)),
{
    let ghost all = rollback_record_summary_views(records@);
    proof {
        assert(all.len() == records@.len());
    }
    if records.len() == 0 {
        return owned("没有回滚记录。\n");
    }
    let mut lines = String::new();
    let mut i: usize = 0;
    proof {
        assert(lines@ =~= record_lines(all.take(0)));
    }
    while i < records.len()
        invariant
            i <= records@.len(),
            all == rollback_record_summary_views(records@),
            lines@ == record_lines(all.take(i as int)),
        decreases records.len() - i,
    {
        proof {
            assert(all.take(i + 1).drop_last() =~= all.take(i as int));
            assert(all.take(i + 1).last() == records@[i as int]@);
        }
        let line = owned("  ").concat(records[i].id.as_str()).concat("  轮次=").concat(
            render_usize(records[i].turn_index).as_str(),
        ).concat("  工具=").concat(records[i].tool_name.as_str()).concat("  文件=[").concat(
            join(&records[i].changed_files, ", ").as_str(),
        ).concat("]\n");
        lines.append(line.as_str());
        i += 1;
    }
    proof {
        assert(all.take(records@.len() as int) =~= all);
    }
    render_usize(records.len()).concat(" 条回滚记录：\n").concat(lines.as_str())
}

/// The name of an action.
pub open spec fn action_name(action: RestoreAction) -> Seq<char> {
    match action {
        RestoreAction::RestorePreviousContent => "RestorePreviousContent"@,
        RestoreAction::DeleteCreatedFile => "DeleteCreatedFile"@,
        RestoreAction::NoChange => "NoChange"@,
        RestoreAction::NothingToRestore => "NothingToRestore"@,
    }
}

/// The name of an action.
pub fn name_of_action(action: RestoreAction) -> (r: &'static str)
    ensures
        r@ == action_name(action),
{
    match action {
        RestoreAction::RestorePreviousContent => "RestorePreviousContent",
        RestoreAction::DeleteCreatedFile => "DeleteCreatedFile",
        RestoreAction::NoChange => "NoChange",
        RestoreAction::NothingToRestore => "NothingToRestore",
    }
}

/// Lines, each four columns further in.
pub open spec fn indented(all: Seq<Seq<char>>) -> Seq<char>
    decreases all.len(),
{
    if all.len() == 0 {
        Seq::empty()
    } else {
        indented(all.drop_last()) + ("    "@ + all.last() + "\n"@)
    }
}

fn render_indented(all: &Vec<String>) -> (r: String)
    ensures
        r@ == indented(views(all@)),
{
    let mut r = String::new();
    let mut i: usize = 0;
    let ghost vs = views(all@);
    proof {
        assert(r@ =~= indented(vs.take(0)));
    }
    while i < all.len()
        invariant
            i <= all@.len(),
            vs == views(all@),
            r@ == indented(vs.take(i as int)),
        decreases all.len() - i,
    {
        proof {
            assert(vs.take(i + 1).drop_last() =~= vs.take(i as int));
            assert(vs.take(i + 1).last() == all@[i as int]@);
        }
        r.append(owned("    ").concat(all[i].as_str()).concat("\n").as_str());
        i += 1;
    }
    proof {
        assert(vs.take(all@.len() as int) =~= vs);
    }
    r
}

/// What a preview shows of a file.
pub open spec fn preview_file(f: FileRollbackPreviewView) -> Seq<char> {
    "  "@ + f.path + "  动作="@ + action_name(f.action) + "\n"@ + if f.diff.len() > 0 && f.diff
        != "(no changes)\n"@ {
        indented(lines(f.diff))
    } else {
        Seq::empty()
    }
}

/// What a preview shows of files.
pub open spec fn preview_files(files: Seq<FileRollbackPreviewView>) -> Seq<char>
    decreases files.len(),
{
    if files.len() == 0 {
        Seq::empty()
    } else {
        preview_files(files.drop_last()) + preview_file(files.last())
    }
}

/// What is shown of a preview.
pub open spec fn preview_text(p: RollbackPreviewView) -> Seq<char> {
    "回滚预览 "@ + p.record_id + "：\n"@ + preview_files(p.files)
}

fn render_preview_file(f: &FileRollbackPreview) -> (r: String)
    ensures
        r@ == preview_file(f@),
{
    let head = owned("  ").concat(f.path.as_str()).concat("  动作=").concat(
        name_of_action(f.action),
    ).concat("\n");
    let diff = if to_chars(f.diff.as_str()).len() > 0 && !same(f.diff.as_str(), "(no changes)\n") {
        render_indented(&split_lines(f.diff.as_str()))
    } else {
        String::new()
    };
    head.concat(diff.as_str())
}

/// What is shown of a preview.
pub fn render_preview(p: &RollbackPreview) -> (r: String)
    ensures
        r@ == preview_text(p@),
{
    let mut files = String::new();
    let mut i: usize = 0;
    let ghost all = file_rollback_preview_views(p.files@);
    proof {
        assert(files@ =~= preview_files(all.take(0)));
    }
    while i < p.files.len()
        invariant
            i <= p.files@.len(),
            all == file_rollback_preview_views(p.files@),
            files@ == preview_files(all.take(i as int)),
        decreases p.files.len() - i,
    {
        proof {
            assert(all.take(i + 1).drop_last() =~= all.take(i as int));
            assert(all.take(i + 1).last() == p.files@[i as int]@);
        }
        files.append(render_preview_file(&p.files[i]).as_str());
        i += 1;
    }
    proof {
        assert(all.take(p.files@.len() as int) =~= all);
    }
    owned("回滚预览 ").concat(p.record_id.as_str()).concat("：\n").concat(files.as_str())
}

/// What a report shows of a file.
pub open spec fn report_file(f: RestoredFileView) -> Seq<char> {
    "  "@ + f.path + " → "@ + action_name(f.action) + "\n"@
}

/// What a report shows of files.
pub open spec fn report_files(files: Seq<RestoredFileView>) -> Seq<char>
    decreases files.len(),
{
    if files.len() == 0 {
        Seq::empty()
    } else {
        report_files(files.drop_last()) + report_file(files.last())
    }
}

/// What is shown of a report; `single` says that one file was asked for.
pub open spec fn report_text(report: RestoreReportView, single: bool) -> Seq<char> {
    if single {
        "已将回滚 "@ + report.record_id + " 应用到指定文件：\n"@ + report_files(report.files)
    } else {
        "已应用回滚 "@ + report.record_id + "：\n"@ + report_files(report.files)
    }
}

/// What is shown of a report; `single` says that one file was asked for.
pub fn render_report(report: &RestoreReport, single: bool) -> (r: String)
    ensures
        r@ == report_text(report@, single),
{
    let mut files = String::new();
    let mut i: usize = 0;
    let ghost all = restored_file_views(report.files@);
    proof {
        assert(files@ =~= report_files(all.take(0)));
    }
    while i < report.files.len()
        invariant
            i <= report.files@.len(),
            all == restored_file_views(report.files@),
            files@ == report_files(all.take(i as int)),
        decreases report.files.len() - i,
    {
        proof {
            assert(all.take(i + 1).drop_last() =~= all.take(i as int));
            assert(all.take(i + 1).last() == report.files@[i as int]@);
        }
        let line = owned("  ").concat(report.files[i].path.as_str()).concat(" → ").concat(
            name_of_action(report.files[i].action),
        ).concat("\n");
        files.append(line.as_str());
        i += 1;
    }
    proof {
        assert(all.take(report.files@.len() as int) =~= all);
    }
    if single {
        owned("已将回滚 ").concat(report.record_id.as_str()).concat(
            " 应用到指定文件：\n",
        ).concat(files.as_str())
    } else {
        owned("已应用回滚 ").concat(report.record_id.as_str()).concat("：\n").concat(
            files.as_str(),
        )
    }
}

/// One session that could have been meant.
pub open spec fn known_session(s: SessionSummary) -> Seq<char> {
    "  "@ + s.id@ + "  消息="@ + decimal(s.message_count as nat) + "  更新时间="@ + decimal(
        s.updated_at_ms as nat,
    ) + "\n"@
}

/// The sessions that could have been meant.
pub open spec fn known_sessions(sessions: Seq<SessionSummary>) -> Seq<char>
    decreases sessions.len(),
{
    if sessions.len() == 0 {
        Seq::empty()
    } else {
        known_sessions(sessions.drop_last()) + known_session(sessions.last())
    }
}

/// What is shown where a session could not be loaded.
pub open spec fn not_found_text(id: Seq<char>, reason: Seq<char>, sessions: Seq<SessionSummary>) -> Seq<
    char,
> {
    "找不到会话："@ + id + "（"@ + reason + "）\n"@ + if sessions.len() == 0 {
        "没有已保存的会话。\n"@
    } else {
        "可用会话：\n"@ + known_sessions(sessions)
    }
}

/// What is shown where a session could not be loaded.
pub fn render_not_found(id: &str, reason: &str, sessions: &Vec<SessionSummary>) -> (r: String)
    ensures
        r@ == not_found_text(id@, reason@, sessions@),
{
    let head = owned("找不到会话：").concat(id).concat("（").concat(reason).concat("）\n");
    if sessions.len() == 0 {
        return head.concat("没有已保存的会话。\n");
    }
    let mut lines = String::new();
    let mut i: usize = 0;
    proof {
        assert(lines@ =~= known_sessions(sessions@.take(0)));
    }
    while i < sessions.len()
        invariant
            i <= sessions@.len(),
            lines@ == known_sessions(sessions@.take(i as int)),
        decreases sessions.len() - i,
    {
        proof {
            assert(sessions@.take(i + 1).drop_last() =~= sessions@.take(i as int));
        }
        let line = owned("  ").concat(sessions[i].id.as_str()).concat("  消息=").concat(
            render_usize(sessions[i].message_count).as_str(),
        ).concat("  更新时间=").concat(render_u64(sessions[i].updated_at_ms).as_str()).concat(
            "\n",
        );
        lines.append(line.as_str());
        i += 1;
    }
    proof {
        assert(sessions@.take(sessions@.len() as int) =~= sessions@);
    }
    head.concat(owned("可用会话：\n").concat(lines.as_str()).as_str())
}

} // verus!
