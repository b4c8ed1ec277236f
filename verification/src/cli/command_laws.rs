//! What holds of every command at the prompt, and of what it shows.
use vstd::prelude::*;
use crate::cli::approval::CommandApprovalRuleView;
use crate::cli::commands::{
    command_of, command_of_words, history_lines, history_text, indented, known_sessions,
    not_found_text, preview_text, records_text, report_text, rules_text, ReplCommandView,
};
use crate::cli::width::shortened;
use crate::message::MessageView;
use crate::number::decimal;
use crate::rollback::record::{
    FileRollbackPreviewView, RestoreReportView, RestoredFileView, RollbackPreviewView,
    RollbackRecordSummaryView,
};
use crate::rollback::snapshot::RestoreAction;
use crate::session::SessionSummary;
use crate::text::{joined, lines, words};

verus! {

/// A line is read by its words, and a slash before the first of them is not part of it.
pub proof fn a_leading_slash_is_not_read(rest: Seq<char>)
    ensures
        command_of(seq!['/'] + rest) == command_of_words(words(rest)),
        rest.len() == 0 || rest[0] != '/' ==> command_of(rest) == command_of_words(words(rest)),
        command_of_words(Seq::empty()) is Nothing,
{
    reveal_strlit("/");
    let line = seq!['/'] + rest;
    assert(line.take(1) =~= "/"@);
    assert(line.skip(1) =~= rest);
    if rest.len() > 0 && rest[0] != '/' {
        assert(rest.take(1)[0] == rest[0]);
        assert("/"@[0] == '/');
    }
}

proof fn lemma_command_names()
    ensures
        "help"@.len() == 4 && "help"@[0] == 'h',
        "session"@.len() == 7 && "session"@[0] == 's',
        "sessions"@.len() == 8 && "sessions"@[0] == 's',
        "history"@.len() == 7 && "history"@[0] == 'h',
        "model"@.len() == 5 && "model"@[0] == 'm',
        "clear"@.len() == 5 && "clear"@[0] == 'c',
        "plan"@.len() == 4 && "plan"@[0] == 'p',
        "approvals"@.len() == 9,
        "rollback"@.len() == 8 && "rollback"@[0] == 'r',
        "tools"@.len() == 5 && "tools"@[0] == 't',
        "帮助"@.len() == 2 && "帮助"@[0] == '帮',
        "会话"@.len() == 2 && "会话"@[0] == '会',
        "会话列表"@.len() == 4 && "会话列表"@[0] == '会',
        "历史"@.len() == 2 && "历史"@[0] == '历',
        "模型"@.len() == 2 && "模型"@[0] == '模',
        "清空"@.len() == 2 && "清空"@[0] == '清',
        "计划"@.len() == 2 && "计划"@[0] == '计',
        "审批"@.len() == 2 && "审批"@[0] == '审',
        "回滚"@.len() == 2 && "回滚"@[0] == '回',
        "工具"@.len() == 2 && "工具"@[0] == '工',
{
    reveal_strlit("help");
    reveal_strlit("session");
    reveal_strlit("sessions");
    reveal_strlit("history");
    reveal_strlit("model");
    reveal_strlit("clear");
    reveal_strlit("plan");
    reveal_strlit("approvals");
    reveal_strlit("rollback");
    reveal_strlit("tools");
    reveal_strlit("帮助");
    reveal_strlit("会话");
    reveal_strlit("会话列表");
    reveal_strlit("历史");
    reveal_strlit("模型");
    reveal_strlit("清空");
    reveal_strlit("计划");
    reveal_strlit("审批");
    reveal_strlit("回滚");
    reveal_strlit("工具");
}

/// Each command goes by an English and a Chinese name, and means the same by either,
/// whatever follows where nothing is read.
pub proof fn commands_go_by_two_names(name: Seq<char>, args: Seq<Seq<char>>)
    ensures
        ({
            let means = command_of_words(seq![name] + args);
            &&& name == "help"@ || name == "帮助"@ ==> means is Help
            &&& name == "sessions"@ || name == "会话列表"@ ==> means is SessionList
            &&& name == "history"@ || name == "历史"@ ==> means is History
            &&& name == "clear"@ || name == "清空"@ ==> means is NewSession
            &&& name == "tools"@ || name == "工具"@ ==> means is Tools
            &&& name == "plan"@ || name == "计划"@ ==> means == (ReplCommandView::Plan { args })
            &&& name == "model"@ || name == "模型"@ ==> if args.len() > 0 {
                means == (ReplCommandView::SetModel { model: args[0] })
            } else {
                means is ShowModel
            }
            &&& name == "approvals"@ || name == "审批"@ ==> if args.len() > 0 && (args[0]
                == "clear"@ || args[0] == "清空"@) {
                means is ClearApprovals
            } else {
                means is ShowApprovals
            }
        }),
{
    lemma_command_names();
    assert((seq![name] + args).drop_first() =~= args);
    assert((seq![name] + args)[0] == name);
}

/// The session command switches to the session it names, and else shows the current one.
pub proof fn session_commands_switch(args: Seq<Seq<char>>, name: Seq<char>)
    requires
        name == "session"@ || name == "会话"@,
    ensures
        ({
            let means = command_of_words(seq![name] + args);
            let switches = args.len() > 0 && (args[0] == "resume"@ || args[0] == "切换"@);
            &&& switches && args.len() > 1 ==> means == (ReplCommandView::SwitchSession {
                id: args[1],
            })
            &&& switches && args.len() == 1 ==> means is Usage
            &&& !switches ==> means is SessionOverview
        }),
{
    lemma_command_names();
    assert((seq![name] + args).drop_first() =~= args);
    assert((seq![name] + args)[0] == name);
}

/// The rollback command lists, previews or applies the record that it names, for all files or
/// for one; what it lacks it asks for, and another word it does not know.
pub proof fn rollback_commands_name_a_record(args: Seq<Seq<char>>, name: Seq<char>)
    requires
        name == "rollback"@ || name == "回滚"@,
    ensures
        ({
            let means = command_of_words(seq![name] + args);
            &&& args.len() == 0 ==> means is RollbackList
            &&& args.len() > 0 && (args[0] == "list"@ || args[0] == "列表"@)
                ==> means is RollbackList
            &&& args.len() > 0 && (args[0] == "preview"@ || args[0] == "预览"@) ==> if args.len()
                > 1 {
                means == (ReplCommandView::RollbackPreview { id: args[1] })
            } else {
                means is Usage
            }
            &&& args.len() > 0 && (args[0] == "apply"@ || args[0] == "恢复"@) ==> if args.len() > 1 {
                means == (ReplCommandView::RollbackApply { id: args[1] })
            } else {
                means is Usage
            }
            &&& args.len() > 0 && (args[0] == "file"@ || args[0] == "文件"@) ==> if args.len() > 2 {
                means == (ReplCommandView::RollbackFile { id: args[1], path: args[2] })
            } else {
                means is Usage
            }
            &&& args.len() > 0 && args[0] != "list"@ && args[0] != "列表"@ && args[0] != "preview"@
                && args[0] != "预览"@ && args[0] != "apply"@ && args[0] != "恢复"@ && args[0]
                != "file"@ && args[0] != "文件"@ ==> means == (ReplCommandView::UnknownRollback {
                name: args[0],
            })
        }),
{
    lemma_command_names();
    assert((seq![name] + args).drop_first() =~= args);
    assert((seq![name] + args)[0] == name);
    reveal_strlit("list");
    reveal_strlit("列表");
    reveal_strlit("preview");
    reveal_strlit("预览");
    reveal_strlit("apply");
    reveal_strlit("恢复");
    reveal_strlit("file");
    reveal_strlit("文件");
    assert("list"@.len() == 4 && "list"@[0] == 'l');
    assert("file"@.len() == 4 && "file"@[0] == 'f');
    assert("preview"@.len() == 7 && "apply"@.len() == 5);
    assert("列表"@.len() == 2 && "列表"@[0] == '列');
    assert("预览"@.len() == 2 && "预览"@[0] == '预');
    assert("恢复"@.len() == 2 && "恢复"@[0] == '恢');
    assert("文件"@.len() == 2 && "文件"@[0] == '文');
}

/// A word that is the name of no command is told as unknown.
pub proof fn other_commands_are_unknown(name: Seq<char>, args: Seq<Seq<char>>)
    requires
        name != "help"@ && name != "帮助"@ && name != "session"@ && name != "会话"@,
        name != "sessions"@ && name != "会话列表"@ && name != "history"@ && name != "历史"@,
        name != "model"@ && name != "模型"@ && name != "clear"@ && name != "清空"@,
        name != "plan"@ && name != "计划"@ && name != "approvals"@ && name != "审批"@,
        name != "rollback"@ && name != "回滚"@ && name != "tools"@ && name != "工具"@,
    ensures
        command_of_words(seq![name] + args) == (ReplCommandView::Unknown { name }),
{
    assert((seq![name] + args)[0] == name);
}

// ---------------------------------------------------------------------------
// What is shown
// ---------------------------------------------------------------------------

/// What the history shows of a message: its number, who said it, two hundred columns of
/// what was said, and the tools it calls or the call it answers.
pub open spec fn told_message(number: nat, m: MessageView) -> Seq<char> {
    let who = match m.role {
        crate::message::MessageRole::System => "系统"@,
        crate::message::MessageRole::User => "用户"@,
        crate::message::MessageRole::Assistant => "助手"@,
        crate::message::MessageRole::Tool => "工具"@,
    };
    let calls = if m.tool_calls is Some && m.tool_calls->0.len() > 0 {
        " [工具调用："@ + joined(
            m.tool_calls->0.map_values(|call: crate::message::ToolCallView| call.name),
            ", "@,
        ) + "]"@
    } else {
        Seq::empty()
    };
    let answers = if m.tool_call_id is Some {
        " [工具调用ID："@ + m.tool_call_id->0 + "]"@
    } else {
        Seq::empty()
    };
    decimal(number) + " "@ + who + "："@ + shortened(m.content, 200) + calls + answers + "\n"@
}

/// The messages from one on, the first of them with the number `number`.
pub open spec fn told_messages(messages: Seq<MessageView>, number: nat) -> Seq<char>
    decreases messages.len(),
{
    if messages.len() == 0 {
        Seq::empty()
    } else {
        told_message(number, messages[0]) + told_messages(messages.drop_first(), number + 1)
    }
}

proof fn lemma_told_push(messages: Seq<MessageView>, m: MessageView, number: nat)
    ensures
        told_messages(messages.push(m), number) == told_messages(messages, number) + told_message(
            number + messages.len(),
            m,
        ),
    decreases messages.len(),
{
    let all = messages.push(m);
    if messages.len() == 0 {
        assert(told_messages(all.drop_first(), number + 1) =~= Seq::<char>::empty());
        assert(told_messages(all, number) =~= told_messages(messages, number) + told_message(
            number,
            m,
        ));
    } else {
        assert(all.drop_first() =~= messages.drop_first().push(m));
        lemma_told_push(messages.drop_first(), m, number + 1);
        assert(told_messages(all, number) =~= told_messages(messages, number) + told_message(
            number + messages.len(),
            m,
        ));
    }
}

proof fn lemma_history_lines(messages: Seq<MessageView>, start: nat, end: nat)
    requires
        start <= end <= messages.len(),
    ensures
        history_lines(messages, start, end) == told_messages(
            messages.subrange(start as int, end as int),
            start + 1,
        ),
    decreases end,
{
    let part = messages.subrange(start as int, end as int);
    if end == start {
        assert(part.len() == 0);
    } else {
        let last = messages[end - 1];
        let less = messages.subrange(start as int, end - 1);
        lemma_history_lines(messages, start, (end - 1) as nat);
        assert(part =~= less.push(last));
        lemma_told_push(less, last, start + 1);
        if last.tool_calls is Some {
            let calls = last.tool_calls->0;
            assert(crate::cli::commands::call_names(calls) =~= calls.map_values(
                |call: crate::message::ToolCallView| call.name,
            ));
        }
        assert(crate::cli::commands::history_line((end - 1) as nat, last) =~= told_message(
            end,
            last,
        ));
    }
}

/// The history shows every message in order where there are at most fifty, and else the
/// latest fifty and how many there are; messages keep the numbers they have among all.
pub proof fn histories_show_the_latest(messages: Seq<MessageView>)
    ensures
        messages.len() == 0 ==> history_text(messages) == "历史消息为空。\n"@,
        0 < messages.len() <= 50 ==> history_text(messages) == told_messages(messages, 1),
        messages.len() > 50 ==> history_text(messages) == "共有 "@ + decimal(messages.len())
            + " 条消息，下面显示最近 50 条。\n"@ + told_messages(
            messages.skip(messages.len() - 50),
            (messages.len() - 49) as nat,
        ),
{
    if messages.len() > 50 {
        let start = (messages.len() - 50) as nat;
        lemma_history_lines(messages, start, messages.len());
        assert(messages.subrange(start as int, messages.len() as int) =~= messages.skip(
            start as int,
        ));
    } else {
        lemma_history_lines(messages, 0, messages.len());
        assert(messages.subrange(0, messages.len() as int) =~= messages);
    }
}

/// Every rule is listed on a line of its own, in order, under their number.
pub proof fn every_rule_is_listed(
    rules: Seq<CommandApprovalRuleView>,
    rule: CommandApprovalRuleView,
) -> (listed: Seq<char>)
    ensures
        rules_text(Seq::empty()) == "没有保存的命令审批规则。\n"@,
        rules.len() > 0 ==> rules_text(rules) == decimal(rules.len()) + " 条命令审批规则：\n"@
            + listed + "使用 /审批 清空 删除全部规则。\n"@,
        rules.len() == 0 ==> listed.len() == 0,
        rules_text(rules.push(rule)) == decimal(rules.len() + 1) + " 条命令审批规则：\n"@ + (listed
            + ("  允许以 `"@ + rule.prefix + "` 开头的命令\n"@))
            + "使用 /审批 清空 删除全部规则。\n"@,
{
    assert(rules.push(rule).drop_last() =~= rules);
    crate::cli::commands::rule_lines(rules)
}

/// Every record is listed on a line of its own, in order, under their number.
pub proof fn every_record_is_listed(
    records: Seq<RollbackRecordSummaryView>,
    r: RollbackRecordSummaryView,
) -> (listed: Seq<char>)
    ensures
        records_text(Seq::empty()) == "没有回滚记录。\n"@,
        records.len() > 0 ==> records_text(records) == decimal(records.len())
            + " 条回滚记录：\n"@ + listed,
        records.len() == 0 ==> listed.len() == 0,
        records_text(records.push(r)) == decimal(records.len() + 1) + " 条回滚记录：\n"@ + (listed
            + ("  "@ + r.id + "  轮次="@ + decimal(r.turn_index as nat) + "  工具="@ + r.tool_name
            + "  文件=["@ + joined(r.changed_files, ", "@) + "]\n"@)),
{
    assert(records.push(r).drop_last() =~= records);
    crate::cli::commands::record_lines(records)
}

/// What an action is called.
pub open spec fn told_action(action: RestoreAction) -> Seq<char> {
    match action {
        RestoreAction::RestorePreviousContent => "RestorePreviousContent"@,
        RestoreAction::DeleteCreatedFile => "DeleteCreatedFile"@,
        RestoreAction::NoChange => "NoChange"@,
        RestoreAction::NothingToRestore => "NothingToRestore"@,
    }
}

/// A preview shows of every file, in order, its path, what would be done with it and, where
/// it would change, each line of the difference four columns further in.
pub proof fn previews_show_every_file(
    record_id: Seq<char>,
    files: Seq<FileRollbackPreviewView>,
    f: FileRollbackPreviewView,
)
    ensures
        preview_text(RollbackPreviewView { record_id, files: Seq::empty() }) == "回滚预览 "@
            + record_id + "：\n"@,
        preview_text(RollbackPreviewView { record_id, files: files.push(f) }) == preview_text(
            RollbackPreviewView { record_id, files },
        ) + ("  "@ + f.path + "  动作="@ + told_action(f.action) + "\n"@ + if f.diff.len() > 0
            && f.diff != "(no changes)\n"@ {
            indented(lines(f.diff))
        } else {
            Seq::empty()
        }),
{
    let none = Seq::<FileRollbackPreviewView>::empty();
    let head = "回滚预览 "@ + record_id + "：\n"@;
    assert(head + crate::cli::commands::preview_files(none) =~= head);
    assert(files.push(f).drop_last() =~= files);
    let before = crate::cli::commands::preview_files(files);
    let last = crate::cli::commands::preview_file(f);
    assert(head + (before + last) =~= head + before + last);
}

/// Lines are set four columns further in, each for itself.
pub proof fn lines_are_set_in(all: Seq<Seq<char>>, line: Seq<char>)
    ensures
        indented(Seq::empty()).len() == 0,
        indented(all.push(line)) == indented(all) + ("    "@ + line + "\n"@),
{
    assert(all.push(line).drop_last() =~= all);
}

/// A report shows of every file, in order, its path and what was done with it.
pub proof fn reports_show_every_file(
    record_id: Seq<char>,
    files: Seq<RestoredFileView>,
    f: RestoredFileView,
    single: bool,
)
    ensures
        report_text(RestoreReportView { record_id, files: Seq::empty() }, single) == if single {
            "已将回滚 "@ + record_id + " 应用到指定文件：\n"@
        } else {
            "已应用回滚 "@ + record_id + "：\n"@
        },
        report_text(RestoreReportView { record_id, files: files.push(f) }, single) == report_text(
            RestoreReportView { record_id, files },
            single,
        ) + ("  "@ + f.path + " → "@ + told_action(f.action) + "\n"@),
{
    let none = Seq::<RestoredFileView>::empty();
    let one = "已将回滚 "@ + record_id + " 应用到指定文件：\n"@;
    let every = "已应用回滚 "@ + record_id + "：\n"@;
    assert(one + crate::cli::commands::report_files(none) =~= one);
    assert(every + crate::cli::commands::report_files(none) =~= every);
    assert(files.push(f).drop_last() =~= files);
    let before = crate::cli::commands::report_files(files);
    let last = crate::cli::commands::report_file(f);
    assert(one + (before + last) =~= one + before + last);
    assert(every + (before + last) =~= every + before + last);
}

/// Where a session is not found, all that there are are shown, each with its number of
/// messages and the time of its last change.
pub proof fn other_sessions_are_offered(
    id: Seq<char>,
    reason: Seq<char>,
    sessions: Seq<SessionSummary>,
    s: SessionSummary,
)
    ensures
        not_found_text(id, reason, Seq::empty()) == "找不到会话："@ + id + "（"@ + reason
            + "）\n"@ + "没有已保存的会话。\n"@,
        not_found_text(id, reason, sessions.push(s)) == "找不到会话："@ + id + "（"@ + reason
            + "）\n"@ + ("可用会话：\n"@ + (known_sessions(sessions) + ("  "@ + s.id@ + "  消息="@
            + decimal(s.message_count as nat) + "  更新时间="@ + decimal(s.updated_at_ms as nat)
            + "\n"@))),
        known_sessions(Seq::empty()).len() == 0,
{
    assert(sessions.push(s).drop_last() =~= sessions);
}

} // verus!
