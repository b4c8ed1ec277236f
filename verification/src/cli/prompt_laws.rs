//! What holds of every line at the prompt, and of what is suggested for it.
use vstd::prelude::*;
use crate::cli::intent::{
    event_action, line_action, means_exit, means_help, means_switch, plain_intent, speaks_of_task,
    LoopActionView, LoopEventView, MainLoopStatus,
};
use crate::cli::suggestions::{
    completions, describe, describe_root, first_word, group_of, has_space, hint_for, last_token, matching,
    options_of, root_commands, suggestion_texts, suggestions, tail_len, OptionGroup,
};
use crate::measure::byte_len;
use crate::text::{
    begins, is_space, joined, lower, occurs_at, occurs_in, trimmed, without_spaces, words,
};
use crate::text_laws::{no_space, tight_texts_stay, trimming_cuts_only_space};

verus! {

proof fn lemma_trimmed_twice(line: Seq<char>)
    ensures
        trimmed(trimmed(line)) == trimmed(line),
{
    let parts = trimming_cuts_only_space(line);
    tight_texts_stay(trimmed(line));
}

/// A line that is a word to leave, with white space around it and in any case, leaves.
pub proof fn words_to_leave_leave(line: Seq<char>)
    requires
        ({
            let word = lower(trimmed(line));
            ||| word == "exit"@
            ||| word == "quit"@
            ||| word == "q"@
            ||| word == "bye"@
            ||| word == "exti"@
            ||| word == "exi"@
            ||| word == "eit"@
            ||| trimmed(line) == "退出"@
            ||| trimmed(line) == "/退出"@
            ||| trimmed(line) == "结束"@
            ||| trimmed(line) == "再见"@
        }),
    ensures
        line_action(line) == (LoopActionView::Stop {
            text: "已退出。\n"@,
            status: MainLoopStatus::ExitedByCommand,
        }),
{
    lemma_trimmed_twice(line);
}

/// A blank line changes nothing.
pub proof fn blank_lines_are_passed_over(line: Seq<char>)
    requires
        trimmed(line).len() == 0,
    ensures
        line_action(line) is Prompt,
{
    lemma_trimmed_twice(line);
    let text = trimmed(line);
    reveal_strlit("exit");
    reveal_strlit("quit");
    reveal_strlit("q");
    reveal_strlit("bye");
    reveal_strlit("exti");
    reveal_strlit("exi");
    reveal_strlit("eit");
    reveal_strlit("退出");
    reveal_strlit("/退出");
    reveal_strlit("结束");
    reveal_strlit("再见");
    assert(lower(text).len() == 0);
    assert("exit"@.len() == 4 && "quit"@.len() == 4 && "q"@.len() == 1 && "bye"@.len() == 3);
    assert("exti"@.len() == 4 && "exi"@.len() == 3 && "eit"@.len() == 3);
    assert("退出"@.len() == 2 && "/退出"@.len() == 3 && "结束"@.len() == 2 && "再见"@.len() == 2);
}

/// Every other line is a command where it begins with a slash, and else a task for the agent;
/// either is handed on without the white space around it and with nothing else changed.
pub proof fn other_lines_are_handed_on(line: Seq<char>)
    requires
        trimmed(line).len() > 0,
        !means_exit(trimmed(line)),
        !means_switch(trimmed(line)),
        !means_help(trimmed(line)),
    ensures
        trimmed(line)[0] == '/' ==> line_action(line) == (LoopActionView::Command {
            input: trimmed(line),
        }),
        trimmed(line)[0] != '/' ==> line_action(line) == (LoopActionView::Turn {
            input: trimmed(line),
        }),
{
}

/// A few words ask for help.
pub proof fn some_words_ask_for_help(line: Seq<char>)
    ensures
        means_help(line) <==> trimmed(line) == "帮助"@ || trimmed(line) == "查看帮助"@ || trimmed(
            line,
        ) == "命令"@ || trimmed(line) == "可用命令"@,
        means_help(line) && !means_switch(line) ==> plain_intent(line) == Some(
            LoopActionView::ShowHelp,
        ),
        means_switch(line) ==> plain_intent(line) == Some(LoopActionView::ShowSessions),
        !means_help(line) && !means_switch(line) ==> plain_intent(line) is None,
{
}

/// A line of at most twelve characters that speaks of sessions and of changing or choosing
/// one wishes to switch, unless it speaks of a task.
pub proof fn short_wishes_switch(line: Seq<char>, i: int, j: int)
    requires
        without_spaces(line).len() <= 12,
        occurs_at(without_spaces(line), "会话"@, i),
        occurs_at(without_spaces(line), "切换"@, j) || occurs_at(without_spaces(line), "换"@, j)
            || occurs_at(without_spaces(line), "选择"@, j),
        !speaks_of_task(without_spaces(line)),
    ensures
        means_switch(line),
{
    let text = without_spaces(line);
    assert(occurs_in(text, "会话"@));
    if occurs_at(text, "切换"@, j) {
        assert(occurs_in(text, "切换"@));
    } else if occurs_at(text, "换"@, j) {
        assert(occurs_in(text, "换"@));
    } else {
        assert(occurs_in(text, "选择"@));
    }
}

/// A longer line is never taken for such a wish, unless it is one of the known words.
pub proof fn long_lines_do_not_switch(line: Seq<char>)
    requires
        without_spaces(line).len() > 12,
    ensures
        means_switch(line) ==> lower(without_spaces(line)) == "switchsession"@ || lower(
            without_spaces(line),
        ) == "changesession"@,
{
    let text = without_spaces(line);
    reveal_strlit("我想切换会话");
    reveal_strlit("切换上下文");
    reveal_strlit("换上下文");
    reveal_strlit("选择会话");
    reveal_strlit("session");
    reveal_strlit("sessions");
    assert("我想切换会话"@.len() == 6 && "切换上下文"@.len() == 5);
    assert("换上下文"@.len() == 4 && "选择会话"@.len() == 4);
    assert("session"@.len() == 7 && "sessions"@.len() == 8);
    assert(lower(text).len() == text.len());
}

/// Words about code and questions speak of a task.
pub proof fn questions_speak_of_a_task(text: Seq<char>, i: int)
    requires
        occurs_at(text, "实现"@, i) || occurs_at(text, "开发"@, i) || occurs_at(text, "功能"@, i)
            || occurs_at(text, "代码"@, i) || occurs_at(text, "怎么"@, i) || occurs_at(
            text,
            "如何"@,
            i,
        ) || occurs_at(text, "为什么"@, i),
    ensures
        speaks_of_task(text),
{
    if occurs_at(text, "实现"@, i) {
        assert(occurs_in(text, "实现"@));
    } else if occurs_at(text, "开发"@, i) {
        assert(occurs_in(text, "开发"@));
    } else if occurs_at(text, "功能"@, i) {
        assert(occurs_in(text, "功能"@));
    } else if occurs_at(text, "代码"@, i) {
        assert(occurs_in(text, "代码"@));
    } else if occurs_at(text, "怎么"@, i) {
        assert(occurs_in(text, "怎么"@));
    } else if occurs_at(text, "如何"@, i) {
        assert(occurs_in(text, "如何"@));
    } else {
        assert(occurs_in(text, "为什么"@));
    }
}

/// The end of the input ends the loop, an interruption does not, and input that cannot be
/// read ends it with the reason.
pub proof fn inputs_end_the_loop(text: Seq<char>, reason: Seq<char>)
    ensures
        event_action(LoopEventView::Line { text }) == line_action(text),
        event_action(LoopEventView::Eof) == (LoopActionView::Stop {
            text: "\n"@,
            status: MainLoopStatus::ExitedByEof,
        }),
        event_action(LoopEventView::Interrupted) is Notice,
        event_action(LoopEventView::ReadFailed { reason }) == (LoopActionView::Stop {
            text: "读取输入失败："@ + reason + "\n"@,
            status: MainLoopStatus::ExitedByEof,
        }),
{
}

// ---------------------------------------------------------------------------
// Suggestions
// ---------------------------------------------------------------------------

/// The options that begin with what was typed are offered, in their order, and no others.
pub proof fn fitting_options_are_offered(
    options: Seq<Seq<char>>,
    option: Seq<char>,
    typed: Seq<char>,
)
    ensures
        matching(Seq::empty(), typed).len() == 0,
        begins(option, typed) ==> matching(options.push(option), typed) == matching(
            options,
            typed,
        ).push(option),
        !begins(option, typed) ==> matching(options.push(option), typed) == matching(
            options,
            typed,
        ),
{
    assert(options.push(option).drop_last() =~= options);
}

/// What is typed is what stands behind the last white space.
pub proof fn typed_text_stands_behind_the_last_space(
    before: Seq<char>,
    gap: char,
    typed: Seq<char>,
)
    requires
        is_space(gap),
        no_space(typed),
    ensures
        has_space(before.push(gap) + typed),
        tail_len(before.push(gap) + typed) == typed.len(),
        last_token(before.push(gap) + typed) == typed,
        tail_len(typed) == typed.len(),
        !has_space(typed),
    decreases typed.len(),
{
    let line = before.push(gap) + typed;
    assert(line[before.len() as int] == gap);
    if typed.len() == 0 {
        assert(line.last() == gap);
    } else {
        let less = typed.drop_last();
        assert forall|i: int| 0 <= i < less.len() implies !is_space(#[trigger] less[i]) by {
            assert(less[i] == typed[i]);
        }
        typed_text_stands_behind_the_last_space(before, gap, less);
        assert(!is_space(typed[typed.len() - 1]));
        assert(line.last() == typed.last());
        assert(line.drop_last() =~= before.push(gap) + less);
    }
    assert(line.skip(line.len() - typed.len()) =~= typed);
}

/// While the first word is typed, the commands that begin with it are suggested, each with
/// what it does.
pub proof fn commands_are_suggested(line: Seq<char>, i: int)
    requires
        !has_space(line),
        0 <= i < matching(root_commands(), line).len(),
    ensures
        suggestions(line).len() == matching(root_commands(), line).len(),
        suggestions(line)[i].command == matching(root_commands(), line)[i],
        suggestions(line)[i].description == describe_root(matching(root_commands(), line)[i]),
{
    let option = matching(root_commands(), line)[i];
    assert(Seq::<char>::empty() + option =~= option);
}

/// Behind a command, what can follow it and begins with what was typed is suggested, with
/// the command before it.
pub proof fn followers_are_suggested(before: Seq<char>, gap: char, typed: Seq<char>, i: int)
    requires
        is_space(gap),
        no_space(typed),
        ({
            let line = before.push(gap) + typed;
            0 <= i < matching(options_of(group_of(first_word(line))), typed).len()
        }),
    ensures
        ({
            let line = before.push(gap) + typed;
            let command = first_word(line);
            let fitting = matching(options_of(group_of(command)), typed);
            let all = suggestions(line);
            &&& words(line).len() > 0 ==> command == words(line)[0]
            &&& all.len() >= fitting.len()
            &&& all[i].command == command + " "@ + fitting[i]
            &&& !(group_of(command) is Plan) ==> all.len() == fitting.len()
            &&& group_of(command) is Plan && typed.len() == 0 ==> all.len() == fitting.len() + 1
                && all.last().command == command + " <任务>"@
        }),
{
    typed_text_stands_behind_the_last_space(before, gap, typed);
}

/// Each command has the options of its own group, by either of its names.
pub proof fn commands_have_their_options()
    ensures
        options_of(group_of("/plan"@)) == seq!["状态"@, "下一步"@, "执行"@, "清空"@, "帮助"@],
        options_of(group_of("/计划"@)) == options_of(group_of("/plan"@)),
        options_of(group_of("/rollback"@)) == seq!["列表"@, "预览"@, "恢复"@, "文件"@],
        options_of(group_of("/回滚"@)) == options_of(group_of("/rollback"@)),
        options_of(group_of("/session"@)) == seq!["切换"@],
        options_of(group_of("/会话"@)) == options_of(group_of("/session"@)),
        options_of(group_of("/approvals"@)) == seq!["清空"@],
        options_of(group_of("/审批"@)) == options_of(group_of("/approvals"@)),
        root_commands() == seq![
            "/帮助"@,
            "/会话"@,
            "/会话列表"@,
            "/历史"@,
            "/模型"@,
            "/清空"@,
            "/计划"@,
            "/审批"@,
            "/回滚"@,
            "/工具"@,
            "退出"@,
        ],
{
    reveal_strlit("/plan");
    reveal_strlit("/计划");
    reveal_strlit("/rollback");
    reveal_strlit("/回滚");
    reveal_strlit("/session");
    reveal_strlit("/会话");
    reveal_strlit("/approvals");
    reveal_strlit("/审批");
    assert("/plan"@.len() == 5 && "/rollback"@.len() == 9 && "/session"@.len() == 8);
    assert("/approvals"@.len() == 10);
    assert("/计划"@.len() == 3 && "/计划"@[1] == '计');
    assert("/回滚"@.len() == 3 && "/回滚"@[1] == '回');
    assert("/会话"@.len() == 3 && "/会话"@[1] == '会');
    assert("/审批"@.len() == 3 && "/审批"@[1] == '审');
}

/// Another command has no options.
pub proof fn other_commands_have_no_options(command: Seq<char>)
    requires
        command != "/plan"@ && command != "/计划"@ && command != "/rollback"@ && command != "/回滚"@,
        command != "/session"@ && command != "/会话"@ && command != "/approvals"@ && command
            != "/审批"@,
    ensures
        options_of(group_of(command)).len() == 0,
{
}

/// The hint below a command lists its suggestions; other texts have none.
pub proof fn hints_list_the_suggestions(line: Seq<char>)
    ensures
        line.len() == 0 || line[0] != '/' ==> hint_for(line) is None,
        suggestions(line).len() == 0 ==> hint_for(line) is None,
        line.len() > 0 && line[0] == '/' && suggestions(line).len() > 0 ==> hint_for(line) == Some(
            "\n  可选："@ + joined(suggestion_texts(suggestions(line)), "   "@),
        ),
        forall|i: int|
            0 <= i < suggestions(line).len() ==> #[trigger] suggestion_texts(suggestions(line))[i]
                == suggestions(line)[i].command + " - "@ + suggestions(line)[i].description,
{
}

/// A completion takes the place of the token that is typed: it starts at its first byte.
pub proof fn completions_replace_the_typed_token(
    before: Seq<char>,
    gap: char,
    typed: Seq<char>,
)
    requires
        is_space(gap),
        no_space(typed),
        before.len() > 0,
        before[0] == '/',
    ensures
        ({
            let line = before.push(gap) + typed;
            &&& completions(line).0 == byte_len(before.push(gap))
            &&& completions(line).1 == matching(
                options_of(group_of(first_word(before.push(gap)))),
                typed,
            )
        }),
{
    typed_text_stands_behind_the_last_space(before, gap, typed);
    let line = before.push(gap) + typed;
    assert(line[0] == '/');
    assert(line.take(line.len() - typed.len()) =~= before.push(gap));
}

/// While the command itself is typed, it is completed from its beginning; a line that is no
/// command is not completed.
pub proof fn commands_are_completed_whole(line: Seq<char>)
    ensures
        line.len() > 0 && line[0] == '/' && !has_space(line) ==> completions(line) == (
            0nat,
            matching(root_commands(), line),
        ),
        line.len() == 0 || line[0] != '/' ==> completions(line).1.len() == 0,
{
}

proof fn lemma_names()
    ensures
        "/帮助"@.len() == 3 && "/帮助"@[1] == '帮',
        "/会话"@.len() == 3 && "/会话"@[1] == '会',
        "/会话列表"@.len() == 5 && "/会话列表"@[1] == '会',
        "/历史"@.len() == 3 && "/历史"@[1] == '历',
        "/模型"@.len() == 3 && "/模型"@[1] == '模',
        "/清空"@.len() == 3 && "/清空"@[1] == '清',
        "/计划"@.len() == 3 && "/计划"@[1] == '计',
        "/审批"@.len() == 3 && "/审批"@[1] == '审',
        "/回滚"@.len() == 3 && "/回滚"@[1] == '回',
        "/工具"@.len() == 3 && "/工具"@[1] == '工',
        "退出"@.len() == 2,
        "/help"@.len() == 5 && "/help"@[1] == 'h',
        "/session"@.len() == 8,
        "/sessions"@.len() == 9,
        "/history"@.len() == 8,
        "/model"@.len() == 6,
        "/clear"@.len() == 6,
        "/plan"@.len() == 5 && "/plan"@[1] == 'p',
        "/approvals"@.len() == 10,
        "/rollback"@.len() == 9,
        "/tools"@.len() == 6,
{
    reveal_strlit("/帮助");
    reveal_strlit("/会话");
    reveal_strlit("/会话列表");
    reveal_strlit("/历史");
    reveal_strlit("/模型");
    reveal_strlit("/清空");
    reveal_strlit("/计划");
    reveal_strlit("/审批");
    reveal_strlit("/回滚");
    reveal_strlit("/工具");
    reveal_strlit("退出");
    reveal_strlit("/help");
    reveal_strlit("/session");
    reveal_strlit("/sessions");
    reveal_strlit("/history");
    reveal_strlit("/model");
    reveal_strlit("/clear");
    reveal_strlit("/plan");
    reveal_strlit("/approvals");
    reveal_strlit("/rollback");
    reveal_strlit("/tools");
}

/// Each command is suggested with what it does.
pub proof fn every_command_is_described()
    ensures
        describe_root("/帮助"@) == "显示所有命令"@,
        describe_root("/会话"@) == "查看或切换会话"@,
        describe_root("/会话列表"@) == "列出保存的会话"@,
        describe_root("/历史"@) == "查看最近消息"@,
        describe_root("/模型"@) == "查看或切换模型"@,
        describe_root("/清空"@) == "开启一个新会话"@,
        describe_root("/计划"@) == "创建或执行工作计划"@,
        describe_root("/审批"@) == "管理命令审批规则"@,
        describe_root("/回滚"@) == "预览或恢复文件改动"@,
        describe_root("/工具"@) == "列出可用工具"@,
        describe_root("退出"@) == "退出交互界面"@,
{
    lemma_names();
}

/// Each option of a command is suggested with what it does.
pub proof fn every_option_is_described()
    ensures
        describe(OptionGroup::Plan, "状态"@) == "显示当前计划"@,
        describe(OptionGroup::Plan, "下一步"@) == "只执行下一步"@,
        describe(OptionGroup::Rollback, "列表"@) == "显示回滚记录"@,
        describe(OptionGroup::Rollback, "预览"@) == "预览一条回滚记录"@,
        describe(OptionGroup::Rollback, "恢复"@) == "恢复该记录中的所有文件"@,
        describe(OptionGroup::Rollback, "文件"@) == "只恢复该记录中的一个文件"@,
        describe(OptionGroup::Session, "切换"@) == "切换到指定会话"@,
        describe(OptionGroup::Approval, "清空"@) == "清除保存的审批规则"@,
{
    reveal_strlit("状态");
    reveal_strlit("status");
    reveal_strlit("下一步");
    reveal_strlit("列表");
    reveal_strlit("list");
    reveal_strlit("预览");
    reveal_strlit("preview");
    reveal_strlit("恢复");
    reveal_strlit("apply");
    reveal_strlit("文件");
    assert("状态"@.len() == 2 && "下一步"@.len() == 3 && "status"@.len() == 6);
    assert("列表"@.len() == 2 && "列表"@[0] == '列' && "list"@.len() == 4);
    assert("预览"@.len() == 2 && "预览"@[0] == '预' && "preview"@.len() == 7);
    assert("恢复"@.len() == 2 && "恢复"@[0] == '恢' && "apply"@.len() == 5);
    assert("文件"@.len() == 2 && "文件"@[0] == '文');
}

} // verus!
