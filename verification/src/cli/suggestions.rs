//! What the user may mean by an unfinished line.
use vstd::prelude::*;
use crate::measure::{byte_len, text_len};
use crate::text::{
    begins, is_space, is_whitespace, join, joined, lemma_views_push, opt_view, owned, same,
    slice_string, split_words, starts_with, to_chars, views, words,
};

verus! {

/// The commands that a line may begin with.
pub open spec fn root_commands() -> Seq<Seq<char>> {
    seq![
        "/帮助"@, "/会话"@, "/会话列表"@, "/历史"@, "/模型"@, "/清空"@, "/计划"@, "/审批"@,
        "/回滚"@, "/工具"@, "退出"@,
    ]
}

fn root_command_list() -> (r: Vec<String>)
    ensures
        views(r@) == root_commands(),
{
    let mut r: Vec<String> = Vec::new();
    r.push(owned("/帮助"));
    r.push(owned("/会话"));
    r.push(owned("/会话列表"));
    r.push(owned("/历史"));
    r.push(owned("/模型"));
    r.push(owned("/清空"));
    r.push(owned("/计划"));
    r.push(owned("/审批"));
    r.push(owned("/回滚"));
    r.push(owned("/工具"));
    r.push(owned("退出"));
    proof {
        assert(views(r@) =~= root_commands());
    }
    r
}

/// What can follow the plan command.
pub open spec fn plan_subcommands() -> Seq<Seq<char>> {
    seq!["状态"@, "下一步"@, "执行"@, "清空"@, "帮助"@]
}

fn plan_subcommand_list() -> (r: Vec<String>)
    ensures
        views(r@) == plan_subcommands(),
{
    let mut r: Vec<String> = Vec::new();
    r.push(owned("状态"));
    r.push(owned("下一步"));
    r.push(owned("执行"));
    r.push(owned("清空"));
    r.push(owned("帮助"));
    proof {
        assert(views(r@) =~= plan_subcommands());
    }
    r
}

/// What can follow the rollback command.
pub open spec fn rollback_subcommands() -> Seq<Seq<char>> {
    seq!["列表"@, "预览"@, "恢复"@, "文件"@]
}

fn rollback_subcommand_list() -> (r: Vec<String>)
    ensures
        views(r@) == rollback_subcommands(),
{
    let mut r: Vec<String> = Vec::new();
    r.push(owned("列表"));
    r.push(owned("预览"));
    r.push(owned("恢复"));
    r.push(owned("文件"));
    proof {
        assert(views(r@) =~= rollback_subcommands());
    }
    r
}

/// What can follow the session command.
pub open spec fn session_subcommands() -> Seq<Seq<char>> {
    seq!["切换"@]
}

fn session_subcommand_list() -> (r: Vec<String>)
    ensures
        views(r@) == session_subcommands(),
{
    let mut r: Vec<String> = Vec::new();
    r.push(owned("切换"));
    proof {
        assert(views(r@) =~= session_subcommands());
    }
    r
}

/// What can follow the approval command.
pub open spec fn approval_subcommands() -> Seq<Seq<char>> {
    seq!["清空"@]
}

fn approval_subcommand_list() -> (r: Vec<String>)
    ensures
        views(r@) == approval_subcommands(),
{
    let mut r: Vec<String> = Vec::new();
    r.push(owned("清空"));
    proof {
        assert(views(r@) =~= approval_subcommands());
    }
    r
}

/// What a command does.
pub open spec fn describe_root(name: Seq<char>) -> Seq<char> {
    if name == "/帮助"@ || name == "/help"@ {
        "显示所有命令"@
    } else if name == "/会话"@ || name == "/session"@ {
        "查看或切换会话"@
    } else if name == "/会话列表"@ || name == "/sessions"@ {
        "列出保存的会话"@
    } else if name == "/历史"@ || name == "/history"@ {
        "查看最近消息"@
    } else if name == "/模型"@ || name == "/model"@ {
        "查看或切换模型"@
    } else if name == "/清空"@ || name == "/clear"@ {
        "开启一个新会话"@
    } else if name == "/计划"@ || name == "/plan"@ {
        "创建或执行工作计划"@
    } else if name == "/审批"@ || name == "/approvals"@ {
        "管理命令审批规则"@
    } else if name == "/回滚"@ || name == "/rollback"@ {
        "预览或恢复文件改动"@
    } else if name == "/工具"@ || name == "/tools"@ {
        "列出可用工具"@
    } else if name == "退出"@ || name == "exit"@ || name == "quit"@ {
        "退出交互界面"@
    } else {
        ""@
    }
}

/// What a command does.
pub fn root_command_description(name: &str) -> (r: &'static str)
    ensures
        r@ == describe_root(name@),
{
    if same(name, "/帮助") || same(name, "/help") {
        "显示所有命令"
    } else if same(name, "/会话") || same(name, "/session") {
        "查看或切换会话"
    } else if same(name, "/会话列表") || same(name, "/sessions") {
        "列出保存的会话"
    } else if same(name, "/历史") || same(name, "/history") {
        "查看最近消息"
    } else if same(name, "/模型") || same(name, "/model") {
        "查看或切换模型"
    } else if same(name, "/清空") || same(name, "/clear") {
        "开启一个新会话"
    } else if same(name, "/计划") || same(name, "/plan") {
        "创建或执行工作计划"
    } else if same(name, "/审批") || same(name, "/approvals") {
        "管理命令审批规则"
    } else if same(name, "/回滚") || same(name, "/rollback") {
        "预览或恢复文件改动"
    } else if same(name, "/工具") || same(name, "/tools") {
        "列出可用工具"
    } else if same(name, "退出") || same(name, "exit") || same(name, "quit") {
        "退出交互界面"
    } else {
        ""
    }
}

/// What a plan command does.
pub open spec fn describe_plan(name: Seq<char>) -> Seq<char> {
    if name == "状态"@ || name == "status"@ {
        "显示当前计划"@
    } else if name == "下一步"@ || name == "step"@ {
        "只执行下一步"@
    } else if name == "执行"@ || name == "run"@ {
        "执行所有剩余步骤"@
    } else if name == "清空"@ || name == "clear"@ {
        "清除当前计划"@
    } else if name == "帮助"@ || name == "help"@ {
        "显示计划命令用法"@
    } else {
        ""@
    }
}

/// What a plan command does.
pub fn plan_subcommand_description(name: &str) -> (r: &'static str)
    ensures
        r@ == describe_plan(name@),
{
    if same(name, "状态") || same(name, "status") {
        "显示当前计划"
    } else if same(name, "下一步") || same(name, "step") {
        "只执行下一步"
    } else if same(name, "执行") || same(name, "run") {
        "执行所有剩余步骤"
    } else if same(name, "清空") || same(name, "clear") {
        "清除当前计划"
    } else if same(name, "帮助") || same(name, "help") {
        "显示计划命令用法"
    } else {
        ""
    }
}

/// What a rollback command does.
pub open spec fn describe_rollback(name: Seq<char>) -> Seq<char> {
    if name == "列表"@ || name == "list"@ {
        "显示回滚记录"@
    } else if name == "预览"@ || name == "preview"@ {
        "预览一条回滚记录"@
    } else if name == "恢复"@ || name == "apply"@ {
        "恢复该记录中的所有文件"@
    } else if name == "文件"@ || name == "file"@ {
        "只恢复该记录中的一个文件"@
    } else {
        ""@
    }
}

/// What a rollback command does.
pub fn rollback_subcommand_description(name: &str) -> (r: &'static str)
    ensures
        r@ == describe_rollback(name@),
{
    if same(name, "列表") || same(name, "list") {
        "显示回滚记录"
    } else if same(name, "预览") || same(name, "preview") {
        "预览一条回滚记录"
    } else if same(name, "恢复") || same(name, "apply") {
        "恢复该记录中的所有文件"
    } else if same(name, "文件") || same(name, "file") {
        "只恢复该记录中的一个文件"
    } else {
        ""
    }
}

/// What a session command does.
pub open spec fn describe_session(name: Seq<char>) -> Seq<char> {
    if name == "切换"@ || name == "resume"@ {
        "切换到指定会话"@
    } else {
        ""@
    }
}

/// What a session command does.
pub fn session_subcommand_description(name: &str) -> (r: &'static str)
    ensures
        r@ == describe_session(name@),
{
    if same(name, "切换") || same(name, "resume") {
        "切换到指定会话"
    } else {
        ""
    }
}

/// What an approval command does.
pub open spec fn describe_approval(name: Seq<char>) -> Seq<char> {
    if name == "清空"@ || name == "clear"@ {
        "清除保存的审批规则"@
    } else {
        ""@
    }
}

/// What an approval command does.
pub fn approval_subcommand_description(name: &str) -> (r: &'static str)
    ensures
        r@ == describe_approval(name@),
{
    if same(name, "清空") || same(name, "clear") {
        "清除保存的审批规则"
    } else {
        ""
    }
}

/// A command that the user may mean, and what it does.
#[derive(Debug, PartialEq, Eq)]
pub struct CommandSuggestion {
    pub command: String,
    pub description: String,
}

/// The value of a `CommandSuggestion`.
pub struct CommandSuggestionView {
    pub command: Seq<char>,
    pub description: Seq<char>,
}

impl View for CommandSuggestion {
    type V = CommandSuggestionView;

    open spec fn view(&self) -> CommandSuggestionView {
        CommandSuggestionView {
            command: self.command@,
            description: self.description@,
        }
    }
}

impl Clone for CommandSuggestion {
    fn clone(&self) -> (r: Self)
        ensures
            r@ == self@,
    {
        CommandSuggestion {
            command: self.command.clone(),
            description: self.description.clone(),
        }
    }
}

/// The values of a list of `CommandSuggestion`.
pub open spec fn command_suggestion_views(s: Seq<CommandSuggestion>) -> Seq<CommandSuggestionView> {
    Seq::new(s.len(), |i: int| s[i]@)
}

/// The options that begin with what was typed.
pub open spec fn matching(options: Seq<Seq<char>>, typed: Seq<char>) -> Seq<Seq<char>>
    decreases options.len(),
{
    if options.len() == 0 {
        options
    } else if begins(options.last(), typed) {
        matching(options.drop_last(), typed).push(options.last())
    } else {
        matching(options.drop_last(), typed)
    }
}

/// The options that begin with what was typed.
pub fn matching_options(options: &Vec<String>, typed: &str) -> (r: Vec<String>)
    ensures
        views(r@) == matching(views(options@), typed@),
{
    let mut r: Vec<String> = Vec::new();
    let mut i: usize = 0;
    let ghost all = views(options@);
    proof {
        assert(views(r@) =~= matching(all.take(0), typed@));
    }
    while i < options.len()
        invariant
            i <= options@.len(),
            all == views(options@),
            views(r@) == matching(all.take(i as int), typed@),
        decreases options.len() - i,
    {
        proof {
            assert(all.take(i + 1).drop_last() =~= all.take(i as int));
            assert(all.take(i + 1).last() == options@[i as int]@);
        }
        if starts_with(options[i].as_str(), typed) {
            let option = options[i].clone();
            proof {
                lemma_views_push(r@, option);
            }
            r.push(option);
        }
        i += 1;
    }
    proof {
        assert(all.take(options@.len() as int) =~= all);
    }
    r
}

/// Whether a text holds white space.
pub open spec fn has_space(s: Seq<char>) -> bool {
    exists|i: int| 0 <= i < s.len() && is_space(#[trigger] s[i])
}

/// How many characters stand behind the last white space, all where there is none.
pub open spec fn tail_len(s: Seq<char>) -> nat
    decreases s.len(),
{
    if s.len() == 0 || is_space(s.last()) {
        0
    } else {
        1 + tail_len(s.drop_last())
    }
}

/// What stands behind the last white space.
pub open spec fn last_token(s: Seq<char>) -> Seq<char> {
    s.skip(s.len() - tail_len(s))
}

/// The first word of a text, nothing where there is none.
pub open spec fn first_word(s: Seq<char>) -> Seq<char> {
    if words(s).len() > 0 {
        words(s)[0]
    } else {
        ""@
    }
}

/// The start of the last token.
fn token_start(v: &Vec<char>) -> (start: usize)
    ensures
        start <= v@.len(),
        v@.len() - start == tail_len(v@),
        start == 0 ==> !has_space(v@),
        start > 0 ==> has_space(v@),
{
    let n: usize = v.len();
    let mut i: usize = n;
    proof {
        assert(v@.take(n as int) =~= v@);
    }
    while i > 0 && !is_whitespace(v[i - 1])
        invariant
            i <= v@.len() == n,
            tail_len(v@) == n - i + tail_len(v@.take(i as int)),
            forall|k: int| i <= k < n ==> !is_space(#[trigger] v@[k]),
        decreases i,
    {
        proof {
            assert(v@.take(i as int).drop_last() =~= v@.take(i - 1));
        }
        i -= 1;
    }
    proof {
        if i > 0 {
            assert(is_space(v@[i - 1]));
        }
    }
    i
}

fn first_word_of(s: &str) -> (r: String)
    ensures
        r@ == first_word(s@),
{
    let all = split_words(s);
    proof {
        assert(words(s@).len() == all@.len());
    }
    if all.len() > 0 {
        proof {
            assert(views(all@)[0] == all@[0]@);
        }
        all[0].clone()
    } else {
        owned("")
    }
}

/// Which description belongs to a list of options.
#[derive(Debug, Clone, Copy, PartialEq, Eq, Structural)]
pub enum OptionGroup {
    Root,
    Plan,
    Rollback,
    Session,
    Approval,
    Unknown,
}

/// The group of options of a command.
pub open spec fn group_of(command: Seq<char>) -> OptionGroup {
    if command == "/plan"@ || command == "/计划"@ {
        OptionGroup::Plan
    } else if command == "/rollback"@ || command == "/回滚"@ {
        OptionGroup::Rollback
    } else if command == "/session"@ || command == "/会话"@ {
        OptionGroup::Session
    } else if command == "/approvals"@ || command == "/审批"@ {
        OptionGroup::Approval
    } else {
        OptionGroup::Unknown
    }
}

/// The options of a group.
pub open spec fn options_of(group: OptionGroup) -> Seq<Seq<char>> {
    match group {
        OptionGroup::Root => root_commands(),
        OptionGroup::Plan => plan_subcommands(),
        OptionGroup::Rollback => rollback_subcommands(),
        OptionGroup::Session => session_subcommands(),
        OptionGroup::Approval => approval_subcommands(),
        OptionGroup::Unknown => Seq::empty(),
    }
}

/// What an option of a group does.
pub open spec fn describe(group: OptionGroup, option: Seq<char>) -> Seq<char> {
    match group {
        OptionGroup::Root => describe_root(option),
        OptionGroup::Plan => describe_plan(option),
        OptionGroup::Rollback => describe_rollback(option),
        OptionGroup::Session => describe_session(option),
        OptionGroup::Approval => describe_approval(option),
        OptionGroup::Unknown => ""@,
    }
}

fn find_group(command: &str) -> (r: OptionGroup)
    ensures
        r == group_of(command@),
{
    if same(command, "/plan") || same(command, "/计划") {
        OptionGroup::Plan
    } else if same(command, "/rollback") || same(command, "/回滚") {
        OptionGroup::Rollback
    } else if same(command, "/session") || same(command, "/会话") {
        OptionGroup::Session
    } else if same(command, "/approvals") || same(command, "/审批") {
        OptionGroup::Approval
    } else {
        OptionGroup::Unknown
    }
}

fn group_options(group: OptionGroup) -> (r: Vec<String>)
    ensures
        views(r@) == options_of(group),
{
    match group {
        OptionGroup::Root => root_command_list(),
        OptionGroup::Plan => plan_subcommand_list(),
        OptionGroup::Rollback => rollback_subcommand_list(),
        OptionGroup::Session => session_subcommand_list(),
        OptionGroup::Approval => approval_subcommand_list(),
        OptionGroup::Unknown => {
            let r: Vec<String> = Vec::new();
            proof {
                assert(views(r@) =~= Seq::empty());
            }
            r
        },
    }
}

fn group_description(group: OptionGroup, option: &str) -> (r: &'static str)
    ensures
        r@ == describe(group, option@),
{
    match group {
        OptionGroup::Root => root_command_description(option),
        OptionGroup::Plan => plan_subcommand_description(option),
        OptionGroup::Rollback => rollback_subcommand_description(option),
        OptionGroup::Session => session_subcommand_description(option),
        OptionGroup::Approval => approval_subcommand_description(option),
        OptionGroup::Unknown => "",
    }
}

/// The suggestions for options that stand behind `before`.
pub open spec fn suggested(group: OptionGroup, before: Seq<char>, options: Seq<Seq<char>>) -> Seq<
    CommandSuggestionView,
> {
    Seq::new(
        options.len(),
        |i: int|
            CommandSuggestionView {
                command: before + options[i],
                description: describe(group, options[i]),
            },
    )
}

/// The suggestion to describe a task.
pub open spec fn task_suggestion(command: Seq<char>) -> CommandSuggestionView {
    CommandSuggestionView {
        command: command + " <任务>"@,
        description: "让模型生成执行计划"@,
    }
}

/// What the user may mean by a line: a command while the first word is typed, and then
/// what can follow it.
pub open spec fn suggestions(line: Seq<char>) -> Seq<CommandSuggestionView> {
    if !has_space(line) {
        suggested(OptionGroup::Root, Seq::empty(), matching(root_commands(), line))
    } else {
        let command = first_word(line);
        let group = group_of(command);
        let typed = last_token(line);
        let found = suggested(group, command + " "@, matching(options_of(group), typed));
        if group is Plan && (typed.len() == 0 || begins("<任务>"@, typed)) {
            found.push(task_suggestion(command))
        } else {
            found
        }
    }
}

fn suggest(group: OptionGroup, before: &str, options: &Vec<String>) -> (r: Vec<CommandSuggestion>)
    ensures
        command_suggestion_views(r@) == suggested(group, before@, views(options@)),
{
    let mut r: Vec<CommandSuggestion> = Vec::new();
    let mut i: usize = 0;
    let ghost all = suggested(group, before@, views(options@));
    while i < options.len()
        invariant
            i <= options@.len(),
            all == suggested(group, before@, views(options@)),
            command_suggestion_views(r@) == all.take(i as int),
        decreases options.len() - i,
    {
        let s = CommandSuggestion {
            command: owned(before).concat(options[i].as_str()),
            description: owned(group_description(group, options[i].as_str())),
        };
        proof {
            assert(views(options@)[i as int] == options@[i as int]@);
            assert(s@ == all[i as int]);
            assert(command_suggestion_views(r@.push(s)) =~= command_suggestion_views(r@).push(s@));
            assert(all.take(i + 1) =~= all.take(i as int).push(all[i as int]));
        }
        r.push(s);
        i += 1;
    }
    proof {
        assert(all.take(options@.len() as int) =~= all);
    }
    r
}

/// What the user may mean by a line.
pub fn suggestions_for_line(line: &str) -> (r: Vec<CommandSuggestion>)
    ensures
        command_suggestion_views(r@) == suggestions(line@),
{
    let v = to_chars(line);
    let start: usize = token_start(&v);
    if start == 0 {
        let options = matching_options(&root_command_list(), line);
        let before = String::new();
        return suggest(OptionGroup::Root, before.as_str(), &options);
    }
    let command = first_word_of(line);
    let group = find_group(command.as_str());
    let typed = slice_string(&v, start, v.len());
    proof {
        assert(v@.subrange(start as int, v@.len() as int) =~= last_token(line@));
    }
    let options = matching_options(&group_options(group), typed.as_str());
    let before = command.clone().concat(" ");
    let mut r = suggest(group, before.as_str(), &options);
    if group == OptionGroup::Plan && (to_chars(typed.as_str()).len() == 0 || starts_with(
        "<任务>",
        typed.as_str(),
    )) {
        let task = CommandSuggestion {
            command: command.concat(" <任务>"),
            description: owned("让模型生成执行计划"),
        };
        proof {
            assert(command_suggestion_views(r@.push(task)) =~= command_suggestion_views(r@).push(
                task@,
            ));
        }
        r.push(task);
    }
    r
}

/// A suggestion as text.
pub open spec fn suggestion_text(s: CommandSuggestionView) -> Seq<char> {
    s.command + " - "@ + s.description
}

/// Suggestions as texts.
pub open spec fn suggestion_texts(all: Seq<CommandSuggestionView>) -> Seq<Seq<char>> {
    Seq::new(all.len(), |i: int| suggestion_text(all[i]))
}

/// What is shown below a line: the suggestions for a command, nothing for other texts.
pub open spec fn hint_for(line: Seq<char>) -> Option<Seq<char>> {
    if !(line.len() > 0 && line[0] == '/') || suggestions(line).len() == 0 {
        None
    } else {
        Some("\n  可选："@ + joined(suggestion_texts(suggestions(line)), "   "@))
    }
}

/// What is shown below a line.
pub fn command_bar_hint(line: &str) -> (r: Option<String>)
    ensures
        opt_view(r) == hint_for(line@),
{
    let v = to_chars(line);
    if !(v.len() > 0 && v[0] == '/') {
        return None;
    }
    let all = suggestions_for_line(line);
    proof {
        assert(suggestions(line@).len() == all@.len());
    }
    if all.len() == 0 {
        return None;
    }
    let mut texts: Vec<String> = Vec::new();
    let mut i: usize = 0;
    let ghost goal = suggestion_texts(suggestions(line@));
    while i < all.len()
        invariant
            i <= all@.len(),
            command_suggestion_views(all@) == suggestions(line@),
            goal == suggestion_texts(suggestions(line@)),
            views(texts@) == goal.take(i as int),
        decreases all.len() - i,
    {
        let t = all[i].command.clone().concat(" - ").concat(all[i].description.as_str());
        proof {
            assert(suggestions(line@)[i as int] == all@[i as int]@);
            lemma_views_push(texts@, t);
            assert(goal.take(i + 1) =~= goal.take(i as int).push(t@));
        }
        texts.push(t);
        i += 1;
    }
    proof {
        assert(goal.take(all@.len() as int) =~= goal);
    }
    Some(owned("\n  可选：").concat(join(&texts, "   ").as_str()))
}

/// What completes the last token of a line, and at which byte that token starts.
pub open spec fn completions(line: Seq<char>) -> (nat, Seq<Seq<char>>) {
    if !(line.len() > 0 && line[0] == '/') {
        (0, Seq::empty())
    } else if !has_space(line) {
        (0, matching(root_commands(), line))
    } else {
        let start = line.len() - tail_len(line);
        (
            byte_len(line.take(start)),
            matching(options_of(group_of(first_word(line.take(start)))), last_token(line)),
        )
    }
}

/// What completes the last token of a line, and at which byte that token starts.
pub fn complete_line(line: &str) -> (r: (usize, Vec<String>))
    ensures
        r.0 == completions(line@).0,
        views(r.1@) == completions(line@).1,
{
    let v = to_chars(line);
    if !(v.len() > 0 && v[0] == '/') {
        let none: Vec<String> = Vec::new();
        proof {
            assert(views(none@) =~= Seq::empty());
        }
        return (0, none);
    }
    let start: usize = token_start(&v);
    if start == 0 {
        return (0, matching_options(&root_command_list(), line));
    }
    let before = slice_string(&v, 0, start);
    let typed = slice_string(&v, start, v.len());
    proof {
        assert(v@.subrange(0, start as int) =~= line@.take(start as int));
        assert(v@.subrange(start as int, v@.len() as int) =~= last_token(line@));
    }
    let command = first_word_of(before.as_str());
    let options = group_options(find_group(command.as_str()));
    (text_len(before.as_str()), matching_options(&options, typed.as_str()))
}

/// Every option that is kept begins with what was typed and is one of the options.
pub proof fn matches_begin_with_typed(options: Seq<Seq<char>>, typed: Seq<char>)
    ensures
        forall|i: int|
            0 <= i < matching(options, typed).len() ==> begins(
                #[trigger] matching(options, typed)[i],
                typed,
            ) && options.contains(matching(options, typed)[i]),
        forall|i: int|
            0 <= i < options.len() && begins(#[trigger] options[i], typed) ==> matching(
                options,
                typed,
            ).contains(options[i]),
    decreases options.len(),
{
    if options.len() > 0 {
        let front = options.drop_last();
        matches_begin_with_typed(front, typed);
        let m = matching(options, typed);
        let mf = matching(front, typed);
        assert forall|i: int| 0 <= i < m.len() implies begins(#[trigger] m[i], typed)
            && options.contains(m[i]) by {
            if i < mf.len() {
                assert(m[i] == mf[i]);
                let j = choose|j: int| 0 <= j < front.len() && front[j] == mf[i];
                assert(options[j] == m[i]);
            } else {
                assert(m[i] == options[options.len() - 1]);
            }
        }
        assert forall|i: int|
            0 <= i < options.len() && begins(#[trigger] options[i], typed) implies m.contains(
            options[i],
        ) by {
            if i < front.len() {
                assert(front[i] == options[i]);
                let j = choose|j: int| 0 <= j < mf.len() && mf[j] == front[i];
                assert(m[j] == options[i]);
            } else {
                assert(m[m.len() - 1] == options[i]);
            }
        }
    }
}

} // verus!
