//! Asking before a command runs, and remembering what may run unasked.
use vstd::prelude::*;
use crate::agent::turn::ShellApproval;
use crate::cli::style::{BOLD_CYAN, DIM, MUTED, RESET, YELLOW};
use crate::cli::width::{pad_to_width, padded, shortened, truncate_str};
use crate::path::{join, joined_path};
use crate::store::{is_safe_char, SessionStore};
use crate::text::{
    begins, is_space, lemma_views_push, lower, owned, same, slice_string, split_words,
    starts_with, to_chars, to_lower, trim, trim_left, trim_start, trimmed, views, words,
};

verus! {

/// A kind of command that may run without being asked for: those with this prefix.
#[derive(Debug, PartialEq, Eq)]
pub struct CommandApprovalRule {
    pub prefix: String,
}

/// The value of a `CommandApprovalRule`.
pub struct CommandApprovalRuleView {
    pub prefix: Seq<char>,
}

impl View for CommandApprovalRule {
    type V = CommandApprovalRuleView;

    open spec fn view(&self) -> CommandApprovalRuleView {
        CommandApprovalRuleView {
            prefix: self.prefix@,
        }
    }
}

impl Clone for CommandApprovalRule {
    fn clone(&self) -> (r: Self)
        ensures
            r@ == self@,
    {
        CommandApprovalRule {
            prefix: self.prefix.clone(),
        }
    }
}

/// The values of a list of `CommandApprovalRule`.
pub open spec fn command_approval_rule_views(
    s: Seq<CommandApprovalRule>,
) -> Seq<CommandApprovalRuleView> {
    Seq::new(s.len(), |i: int| s[i]@)
}

/// Whether a command may run, or what the user is asked.
#[derive(Debug, PartialEq, Eq)]
pub enum ApprovalDecision {
    Approved,
    /// Ask, showing what the command is for and the rule that would allow its kind.
    Ask { summary: String, rule: String },
}

/// The value of a `ApprovalDecision`.
pub enum ApprovalDecisionView {
    Approved,
    Ask { summary: Seq<char>, rule: Seq<char> },
}

impl View for ApprovalDecision {
    type V = ApprovalDecisionView;

    open spec fn view(&self) -> ApprovalDecisionView {
        match self {
            ApprovalDecision::Approved => ApprovalDecisionView::Approved,
            ApprovalDecision::Ask { summary, rule } => ApprovalDecisionView::Ask {
                summary: summary@,
                rule: rule@,
            },
        }
    }
}
/// What a command of Cargo is for, by its second word.
pub open spec fn cargo_purpose(second: Seq<char>) -> Seq<char> {
    if second == "test"@ {
        "运行 Rust 测试验证项目"@
    } else if second == "check"@ {
        "检查 Rust 项目类型和编译错误"@
    } else if second == "fmt"@ {
        "格式化 Rust 源码"@
    } else if second == "run"@ {
        "运行 Rust 应用"@
    } else if second == "build"@ {
        "构建 Rust 项目"@
    } else {
        "运行 Cargo 命令"@
    }
}

fn describe_cargo(second: &str) -> (r: &'static str)
    ensures
        r@ == cargo_purpose(second@),
{
    if same(second, "test") {
        "运行 Rust 测试验证项目"
    } else if same(second, "check") {
        "检查 Rust 项目类型和编译错误"
    } else if same(second, "fmt") {
        "格式化 Rust 源码"
    } else if same(second, "run") {
        "运行 Rust 应用"
    } else if same(second, "build") {
        "构建 Rust 项目"
    } else {
        "运行 Cargo 命令"
    }
}

/// What a command of Git is for, by its second word.
pub open spec fn git_purpose(second: Seq<char>) -> Seq<char> {
    if second == "status"@ {
        "查看仓库状态"@
    } else if second == "diff"@ {
        "查看未提交的代码改动"@
    } else if second == "log"@ {
        "查看提交历史"@
    } else if second == "add"@ {
        "暂存准备提交的文件"@
    } else if second == "commit"@ {
        "创建 Git 提交"@
    } else if second == "push"@ {
        "推送本地提交到远端仓库"@
    } else if second == "pull"@ {
        "拉取远端改动到本地仓库"@
    } else {
        "运行 Git 命令"@
    }
}

fn describe_git(second: &str) -> (r: &'static str)
    ensures
        r@ == git_purpose(second@),
{
    if same(second, "status") {
        "查看仓库状态"
    } else if same(second, "diff") {
        "查看未提交的代码改动"
    } else if same(second, "log") {
        "查看提交历史"
    } else if same(second, "add") {
        "暂存准备提交的文件"
    } else if same(second, "commit") {
        "创建 Git 提交"
    } else if same(second, "push") {
        "推送本地提交到远端仓库"
    } else if same(second, "pull") {
        "拉取远端改动到本地仓库"
    } else {
        "运行 Git 命令"
    }
}

/// What a command of a JavaScript package manager is for, by its second word.
pub open spec fn script_purpose(second: Seq<char>) -> Seq<char> {
    if second == "test"@ {
        "运行 JavaScript 项目测试"@
    } else if second == "run"@ {
        "运行包脚本"@
    } else if second == "install"@ || second == "add"@ {
        "安装包依赖"@
    } else {
        "运行 JavaScript 包管理命令"@
    }
}

fn describe_script(second: &str) -> (r: &'static str)
    ensures
        r@ == script_purpose(second@),
{
    if same(second, "test") {
        "运行 JavaScript 项目测试"
    } else if same(second, "run") {
        "运行包脚本"
    } else if same(second, "install") || same(second, "add") {
        "安装包依赖"
    } else {
        "运行 JavaScript 包管理命令"
    }
}

/// What a command is for, by its words in small letters.
pub open spec fn purpose(words: Seq<Seq<char>>) -> Seq<char> {
    if words.len() == 0 {
        "执行命令行命令"@
    } else {
        let first = words[0];
        let second = if words.len() > 1 {
            words[1]
        } else {
            ""@
        };
        if first == "cargo"@ {
            cargo_purpose(second)
        } else if first == "git"@ {
            git_purpose(second)
        } else if first == "npm"@ || first == "pnpm"@ || first == "yarn"@ {
            script_purpose(second)
        } else if first == "python"@ || first == "python3"@ {
            "运行 Python 脚本或内联命令"@
        } else if first == "mkdir"@ {
            "创建目录"@
        } else if first == "dir"@ || first == "ls"@ {
            "列出目录中的文件"@
        } else if first == "type"@ || first == "cat"@ {
            "打印文件内容"@
        } else if first == "del"@ || first == "rm"@ {
            "删除文件或目录"@
        } else if first == "copy"@ || first == "cp"@ {
            "复制文件或目录"@
        } else if first == "move"@ || first == "mv"@ {
            "移动或重命名文件或目录"@
        } else {
            "执行模型请求的命令行命令"@
        }
    }
}

/// What a command is for.
pub fn describe_shell_command(command: &str) -> (r: String)
    ensures
        r@ == purpose(words(lower(trimmed(command@)))),
{
    let all = split_words(to_lower(trim(command).as_str()).as_str());
    let ghost ws = words(lower(trimmed(command@)));
    proof {
        assert(ws.len() == all@.len());
    }
    if all.len() == 0 {
        return owned("执行命令行命令");
    }
    proof {
        assert(ws[0] == all@[0]@);
        if all@.len() > 1 {
            assert(ws[1] == all@[1]@);
        }
    }
    let first = all[0].as_str();
    let second = if all.len() > 1 {
        all[1].as_str()
    } else {
        ""
    };
    let text = if same(first, "cargo") {
        describe_cargo(second)
    } else if same(first, "git") {
        describe_git(second)
    } else if same(first, "npm") || same(first, "pnpm") || same(first, "yarn") {
        describe_script(second)
    } else if same(first, "python") || same(first, "python3") {
        "运行 Python 脚本或内联命令"
    } else if same(first, "mkdir") {
        "创建目录"
    } else if same(first, "dir") || same(first, "ls") {
        "列出目录中的文件"
    } else if same(first, "type") || same(first, "cat") {
        "打印文件内容"
    } else if same(first, "del") || same(first, "rm") {
        "删除文件或目录"
    } else if same(first, "copy") || same(first, "cp") {
        "复制文件或目录"
    } else if same(first, "move") || same(first, "mv") {
        "移动或重命名文件或目录"
    } else {
        "执行模型请求的命令行命令"
    };
    owned(text)
}


/// What the user says when asked about a command.
#[derive(Debug, Clone, Copy, PartialEq, Eq, Structural)]
pub enum ApprovalChoice {
    AllowOnce,
    AlwaysAllowSimilar,
    Deny,
}

/// A key that was pressed in a menu.
#[derive(Debug, Clone, Copy, PartialEq, Eq, Structural)]
pub enum MenuKey {
    Up,
    Down,
    Enter,
    Escape,
    Letter(char),
    Other,
}

// ---------------------------------------------------------------------------
// Rules
// ---------------------------------------------------------------------------

/// The text without a character at either end.
pub open spec fn trim_char_start(s: Seq<char>, c: char) -> Seq<char>
    decreases s.len(),
{
    if s.len() > 0 && s[0] == c {
        trim_char_start(s.drop_first(), c)
    } else {
        s
    }
}

/// The text without a character at its end.
pub open spec fn trim_char_end(s: Seq<char>, c: char) -> Seq<char>
    decreases s.len(),
{
    if s.len() > 0 && s.last() == c {
        trim_char_end(s.drop_last(), c)
    } else {
        s
    }
}

/// `str::trim_matches` with a character.
pub open spec fn trim_char(s: Seq<char>, c: char) -> Seq<char> {
    trim_char_end(trim_char_start(s, c), c)
}

/// `str::trim_matches` with a character.
pub fn trim_matches(s: &str, c: char) -> (r: String)
    ensures
        r@ == trim_char(s@, c),
{
    let v = to_chars(s);
    let n: usize = v.len();
    let mut a: usize = 0;
    proof {
        assert(v@.skip(0) =~= v@);
    }
    while a < n && v[a] == c
        invariant
            a <= v@.len() == n,
            trim_char_start(v@, c) == trim_char_start(v@.skip(a as int), c),
        decreases n - a,
    {
        proof {
            assert(v@.skip(a as int).drop_first() =~= v@.skip(a + 1));
        }
        a += 1;
    }
    let mut b: usize = n;
    let ghost t = v@.skip(a as int);
    proof {
        assert(t =~= v@.subrange(a as int, n as int));
    }
    while b > a && v[b - 1] == c
        invariant
            a <= b <= v@.len() == n,
            trim_char_end(t, c) == trim_char_end(v@.subrange(a as int, b as int), c),
        decreases b,
    {
        proof {
            assert(v@.subrange(a as int, b as int).drop_last() =~= v@.subrange(a as int, b - 1));
        }
        b -= 1;
    }
    slice_string(&v, a, b)
}

/// A word without quotes around it.
pub open spec fn unquoted_word(word: Seq<char>) -> Seq<char> {
    trim_char(trim_char(word, '"'), '\'')
}

/// The words without quotes around them, without those of which nothing is left.
pub open spec fn bare_words(words: Seq<Seq<char>>) -> Seq<Seq<char>>
    decreases words.len(),
{
    if words.len() == 0 {
        words
    } else if unquoted_word(words.last()).len() == 0 {
        bare_words(words.drop_last())
    } else {
        bare_words(words.drop_last()).push(unquoted_word(words.last()))
    }
}

/// The first two words of a command, at most.
pub open spec fn leading_words(command: Seq<char>) -> Seq<Seq<char>> {
    let all = words(command);
    if all.len() > 2 {
        all.take(2)
    } else {
        all
    }
}

/// Whether the second word of a command belongs to its kind.
pub open spec fn has_subcommands(first: Seq<char>) -> bool {
    ||| first == "cargo"@
    ||| first == "git"@
    ||| first == "npm"@
    ||| first == "pnpm"@
    ||| first == "yarn"@
    ||| first == "python"@
    ||| first == "python3"@
    ||| first == "rustc"@
}

/// The rule that would allow commands of the same kind.
pub open spec fn rule_for(command: Seq<char>) -> Seq<char> {
    let ws = bare_words(leading_words(command));
    if ws.len() == 0 {
        trimmed(command)
    } else if has_subcommands(ws[0]) && ws.len() >= 2 {
        ws[0] + " "@ + ws[1]
    } else {
        ws[0]
    }
}

/// The rule that would allow commands of the same kind.
pub fn command_rule_prefix(command: &str) -> (r: String)
    ensures
        r@ == rule_for(command@),
{
    let mut all = split_words(command);
    proof {
        assert(words(command@).len() == all@.len());
    }
    if all.len() > 2 {
        let ghost before = views(all@);
        all.truncate(2);
        proof {
            assert(views(all@) =~= before.take(2));
        }
    }
    let ghost lead = leading_words(command@);
    let mut ws: Vec<String> = Vec::new();
    let mut i: usize = 0;
    proof {
        assert(views(ws@) =~= bare_words(lead.take(0)));
    }
    while i < all.len()
        invariant
            i <= all@.len(),
            views(all@) == lead,
            views(ws@) == bare_words(lead.take(i as int)),
        decreases all.len() - i,
    {
        proof {
            assert(lead.take(i + 1).drop_last() =~= lead.take(i as int));
            assert(lead.take(i + 1).last() == all@[i as int]@);
        }
        let bare = trim_matches(trim_matches(all[i].as_str(), '"').as_str(), '\'');
        if to_chars(bare.as_str()).len() > 0 {
            proof {
                lemma_views_push(ws@, bare);
            }
            ws.push(bare);
        }
        i += 1;
    }
    proof {
        assert(lead.take(all@.len() as int) =~= lead);
        assert(views(ws@).len() == ws@.len());
    }
    if ws.len() == 0 {
        return trim(command);
    }
    proof {
        assert(views(ws@)[0] == ws@[0]@);
    }
    let first = ws[0].as_str();
    if ws.len() >= 2 && (same(first, "cargo") || same(first, "git") || same(first, "npm") || same(
        first,
        "pnpm",
    ) || same(first, "yarn") || same(first, "python") || same(first, "python3") || same(
        first,
        "rustc",
    )) {
        proof {
            assert(views(ws@)[1] == ws@[1]@);
        }
        return ws[0].clone().concat(" ").concat(ws[1].as_str());
    }
    ws[0].clone()
}

/// Whether a rule allows a command.
pub open spec fn allows(rule: CommandApprovalRuleView, command: Seq<char>) -> bool {
    begins(trim_start(command), rule.prefix)
}

/// Whether a rule allows a command.
pub fn command_matches_rule(command: &str, rule: &CommandApprovalRule) -> (r: bool)
    ensures
        r == allows(rule@, command@),
{
    starts_with(trim_left(command).as_str(), rule.prefix.as_str())
}

/// Whether some rule allows a command.
pub open spec fn is_allowed(rules: Seq<CommandApprovalRuleView>, command: Seq<char>) -> bool {
    exists|i: int| 0 <= i < rules.len() && allows(#[trigger] rules[i], command)
}

/// Whether a command may run, or what the user is asked.
pub open spec fn decision(
    rules: Seq<CommandApprovalRuleView>,
    command: Seq<char>,
) -> ApprovalDecisionView {
    if is_allowed(rules, command) {
        ApprovalDecisionView::Approved
    } else {
        ApprovalDecisionView::Ask {
            summary: purpose(words(lower(trimmed(command)))),
            rule: rule_for(command),
        }
    }
}

/// Whether a command may run, or what the user is asked.
pub fn decide_approval(rules: &Vec<CommandApprovalRule>, command: &str) -> (r: ApprovalDecision)
    ensures
        r@ == decision(command_approval_rule_views(rules@), command@),
{
    let ghost all = command_approval_rule_views(rules@);
    let mut i: usize = 0;
    while i < rules.len()
        invariant
            i <= rules@.len(),
            all == command_approval_rule_views(rules@),
            forall|k: int| 0 <= k < i ==> !allows(#[trigger] all[k], command@),
        decreases rules.len() - i,
    {
        proof {
            assert(all[i as int] == rules@[i as int]@);
        }
        if command_matches_rule(command, &rules[i]) {
            return ApprovalDecision::Approved;
        }
        i += 1;
    }
    ApprovalDecision::Ask {
        summary: describe_shell_command(command),
        rule: command_rule_prefix(command),
    }
}

/// Whether there is a rule with this prefix.
pub open spec fn has_rule(rules: Seq<CommandApprovalRuleView>, prefix: Seq<char>) -> bool {
    exists|i: int| 0 <= i < rules.len() && (#[trigger] rules[i]).prefix == prefix
}

/// The rules once the user has chosen.
pub open spec fn rules_after(
    choice: ApprovalChoice,
    rules: Seq<CommandApprovalRuleView>,
    prefix: Seq<char>,
) -> Seq<CommandApprovalRuleView> {
    if choice is AlwaysAllowSimilar && !has_rule(rules, prefix) {
        rules.push(CommandApprovalRuleView { prefix })
    } else {
        rules
    }
}

/// What a choice means for the command.
pub open spec fn approval_of(choice: ApprovalChoice) -> ShellApproval {
    if choice is Deny {
        ShellApproval::Denied
    } else {
        ShellApproval::Approved
    }
}

/// Carries out a choice: what it means for the command, and whether the rules have to be saved.
pub fn apply_choice(choice: ApprovalChoice, prefix: &str, rules: &mut Vec<CommandApprovalRule>) -> (r:
    (ShellApproval, bool))
    ensures
        r.0 == approval_of(choice),
        r.1 == (choice is AlwaysAllowSimilar),
        command_approval_rule_views(final(rules)@) == rules_after(
            choice,
            command_approval_rule_views(old(rules)@),
            prefix@,
        ),
{
    match choice {
        ApprovalChoice::AllowOnce => (ShellApproval::Approved, false),
        ApprovalChoice::Deny => (ShellApproval::Denied, false),
        ApprovalChoice::AlwaysAllowSimilar => {
            let ghost all = command_approval_rule_views(rules@);
            let mut i: usize = 0;
            let mut found = false;
            while i < rules.len()
                invariant
                    i <= rules@.len(),
                    rules@ == old(rules)@,
                    all == command_approval_rule_views(rules@),
                    found == exists|k: int| 0 <= k < i && (#[trigger] all[k]).prefix == prefix@,
                decreases rules.len() - i,
            {
                proof {
                    assert(all[i as int] == rules@[i as int]@);
                }
                if same(rules[i].prefix.as_str(), prefix) {
                    found = true;
                }
                i += 1;
            }
            if !found {
                let rule = CommandApprovalRule { prefix: owned(prefix) };
                proof {
                    assert(command_approval_rule_views(rules@.push(rule)) =~= all.push(rule@));
                }
                rules.push(rule);
            }
            (ShellApproval::Approved, true)
        },
    }
}

// ---------------------------------------------------------------------------
// The menu
// ---------------------------------------------------------------------------

/// The choice below another; behind the last comes the first.
pub open spec fn choice_below(choice: ApprovalChoice) -> ApprovalChoice {
    match choice {
        ApprovalChoice::AllowOnce => ApprovalChoice::AlwaysAllowSimilar,
        ApprovalChoice::AlwaysAllowSimilar => ApprovalChoice::Deny,
        ApprovalChoice::Deny => ApprovalChoice::AllowOnce,
    }
}

/// The choice above another; before the first comes the last.
pub open spec fn choice_above(choice: ApprovalChoice) -> ApprovalChoice {
    match choice {
        ApprovalChoice::AllowOnce => ApprovalChoice::Deny,
        ApprovalChoice::AlwaysAllowSimilar => ApprovalChoice::AllowOnce,
        ApprovalChoice::Deny => ApprovalChoice::AlwaysAllowSimilar,
    }
}

/// The choice below another.
pub fn next_approval_choice(choice: ApprovalChoice) -> (r: ApprovalChoice)
    ensures
        r == choice_below(choice),
{
    match choice {
        ApprovalChoice::AllowOnce => ApprovalChoice::AlwaysAllowSimilar,
        ApprovalChoice::AlwaysAllowSimilar => ApprovalChoice::Deny,
        ApprovalChoice::Deny => ApprovalChoice::AllowOnce,
    }
}

/// The choice above another.
pub fn previous_approval_choice(choice: ApprovalChoice) -> (r: ApprovalChoice)
    ensures
        r == choice_above(choice),
{
    match choice {
        ApprovalChoice::AllowOnce => ApprovalChoice::Deny,
        ApprovalChoice::AlwaysAllowSimilar => ApprovalChoice::AllowOnce,
        ApprovalChoice::Deny => ApprovalChoice::AlwaysAllowSimilar,
    }
}

/// Up undoes down and down undoes up.
pub proof fn approval_menu_moves_are_inverse(choice: ApprovalChoice)
    ensures
        choice_above(choice_below(choice)) == choice,
        choice_below(choice_above(choice)) == choice,
        choice_below(choice_below(choice_below(choice))) == choice,
{
}

/// The choice once a key was pressed, and whether it is final.
pub open spec fn after_key(selected: ApprovalChoice, key: MenuKey) -> (ApprovalChoice, bool) {
    match key {
        MenuKey::Up => (choice_above(selected), false),
        MenuKey::Down => (choice_below(selected), false),
        MenuKey::Enter => (selected, true),
        MenuKey::Escape => (ApprovalChoice::Deny, true),
        MenuKey::Letter(c) => if c == 'y' || c == 'Y' {
            (ApprovalChoice::AllowOnce, true)
        } else if c == 'a' || c == 'A' {
            (ApprovalChoice::AlwaysAllowSimilar, true)
        } else if c == 'n' || c == 'N' {
            (ApprovalChoice::Deny, true)
        } else {
            (selected, false)
        },
        MenuKey::Other => (selected, false),
    }
}

/// The choice once a key was pressed, and whether it is final.
pub fn approval_key(selected: ApprovalChoice, key: MenuKey) -> (r: (ApprovalChoice, bool))
    ensures
        r == after_key(selected, key),
{
    match key {
        MenuKey::Up => (previous_approval_choice(selected), false),
        MenuKey::Down => (next_approval_choice(selected), false),
        MenuKey::Enter => (selected, true),
        MenuKey::Escape => (ApprovalChoice::Deny, true),
        MenuKey::Letter(c) => {
            if c == 'y' || c == 'Y' {
                (ApprovalChoice::AllowOnce, true)
            } else if c == 'a' || c == 'A' {
                (ApprovalChoice::AlwaysAllowSimilar, true)
            } else if c == 'n' || c == 'N' {
                (ApprovalChoice::Deny, true)
            } else {
                (selected, false)
            }
        },
        MenuKey::Other => (selected, false),
    }
}

/// The choice that a line means: nothing and yes allow once, anything unknown denies.
pub open spec fn choice_of_line(line: Seq<char>) -> ApprovalChoice {
    let word = lower(trimmed(line));
    if word == ""@ || word == "y"@ || word == "yes"@ {
        ApprovalChoice::AllowOnce
    } else if word == "a"@ || word == "always"@ {
        ApprovalChoice::AlwaysAllowSimilar
    } else {
        ApprovalChoice::Deny
    }
}

/// The choice that a line means.
pub fn approval_from_line(line: &str) -> (r: ApprovalChoice)
    ensures
        r == choice_of_line(line@),
{
    let text = to_lower(trim(line).as_str());
    let word = text.as_str();
    if same(word, "") || same(word, "y") || same(word, "yes") {
        ApprovalChoice::AllowOnce
    } else if same(word, "a") || same(word, "always") {
        ApprovalChoice::AlwaysAllowSimilar
    } else {
        ApprovalChoice::Deny
    }
}

/// A labelled row of a box.
pub open spec fn box_row(label: Seq<char>, text: Seq<char>) -> Seq<char> {
    DIM@ + "│"@ + RESET@ + " "@ + MUTED@ + label + RESET@ + "  "@ + text + "\n"@
}

fn render_box_row(label: &str, text: &str) -> (r: String)
    ensures
        r@ == box_row(label@, text@),
{
    owned(DIM).concat("│").concat(RESET).concat(" ").concat(MUTED).concat(label).concat(
        RESET,
    ).concat("  ").concat(text).concat("\n")
}

/// The head of the approval box.
pub open spec fn approval_head() -> Seq<char> {
    DIM@ + "╭─"@ + RESET@ + " "@ + YELLOW@ + "! 命令确认"@ + RESET@ + "\n"@
}

fn render_approval_head() -> (r: String)
    ensures
        r@ == approval_head(),
{
    owned(DIM).concat("╭─").concat(RESET).concat(" ").concat(YELLOW).concat(
        "! 命令确认",
    ).concat(RESET).concat("\n")
}

/// What is asked where there is no menu.
pub open spec fn approval_question(
    command: Seq<char>,
    summary: Seq<char>,
    rule: Seq<char>,
) -> Seq<char> {
    "\n"@ + approval_head() + box_row("意图"@, summary) + box_row("命令"@, command) + box_row(
        "规则"@,
        rule,
    ) + DIM@ + "╰─"@ + RESET@ + " "@ + MUTED@
        + "回车/y 本次允许 · a 总是允许类似命令 · n 拒绝"@ + RESET@ + "\n"@ + BOLD_CYAN@
        + "选择>"@ + RESET@ + " "@
}

/// What is asked where there is no menu.
pub fn render_approval_question(command: &str, summary: &str, rule: &str) -> (r: String)
    ensures
        r@ == approval_question(command@, summary@, rule@),
{
    owned("\n").concat(render_approval_head().as_str()).concat(
        render_box_row("意图", summary).as_str(),
    ).concat(render_box_row("命令", command).as_str()).concat(
        render_box_row("规则", rule).as_str(),
    ).concat(DIM).concat("╰─").concat(RESET).concat(" ").concat(MUTED).concat(
        "回车/y 本次允许 · a 总是允许类似命令 · n 拒绝",
    ).concat(RESET).concat("\n").concat(BOLD_CYAN).concat("选择>").concat(RESET).concat(" ")
}

/// One row of the approval menu.
pub open spec fn menu_row(selected: bool, label: Seq<char>, help: Seq<char>) -> Seq<char> {
    let marked = if selected {
        ">"@ + " "@ + label
    } else {
        " "@ + " "@ + label
    };
    let style = if selected {
        BOLD_CYAN@
    } else {
        MUTED@
    };
    DIM@ + "│"@ + RESET@ + " "@ + style + padded(marked, 22) + RESET@ + " "@ + MUTED@ + help
        + RESET@ + "\n"@
}

fn render_menu_row(selected: bool, label: &str, help: &str) -> (r: String)
    ensures
        r@ == menu_row(selected, label@, help@),
{
    let marker = if selected {
        ">"
    } else {
        " "
    };
    let style = if selected {
        BOLD_CYAN
    } else {
        MUTED
    };
    let marked = owned(marker).concat(" ").concat(label);
    owned(DIM).concat("│").concat(RESET).concat(" ").concat(style).concat(
        pad_to_width(marked.as_str(), 22).as_str(),
    ).concat(RESET).concat(" ").concat(MUTED).concat(help).concat(RESET).concat("\n")
}

/// How many lines the approval menu takes.
pub const APPROVAL_MENU_LINES: u16 = 8;

/// The approval menu.
pub open spec fn approval_menu(
    command: Seq<char>,
    summary: Seq<char>,
    rule: Seq<char>,
    selected: ApprovalChoice,
) -> Seq<char> {
    approval_head() + box_row("意图"@, summary) + box_row("命令"@, shortened(command, 96))
        + box_row("规则"@, rule) + DIM@ + "│"@ + RESET@ + " "@ + MUTED@
        + "↑/↓ 切换，回车确认。快捷键：y 本次，a 总是，n 拒绝"@ + RESET@ + "\n"@ + menu_row(
        selected is AllowOnce,
        "本次允许"@,
        "只运行当前这条命令"@,
    ) + menu_row(
        selected is AlwaysAllowSimilar,
        "总是允许类似命令"@,
        "保存此前缀为可信规则"@,
    ) + menu_row(selected is Deny, "拒绝"@, "不运行这条命令"@)
}

/// The approval menu.
pub fn render_approval_menu(
    command: &str,
    summary: &str,
    rule: &str,
    selected: ApprovalChoice,
) -> (r: String)
    ensures
        r@ == approval_menu(command@, summary@, rule@, selected),
{
    render_approval_head().concat(render_box_row("意图", summary).as_str()).concat(
        render_box_row("命令", truncate_str(command, 96).as_str()).as_str(),
    ).concat(render_box_row("规则", rule).as_str()).concat(DIM).concat("│").concat(RESET).concat(
        " ",
    ).concat(MUTED).concat(
        "↑/↓ 切换，回车确认。快捷键：y 本次，a 总是，n 拒绝",
    ).concat(RESET).concat("\n").concat(
        render_menu_row(
            selected == ApprovalChoice::AllowOnce,
            "本次允许",
            "只运行当前这条命令",
        ).as_str(),
    ).concat(
        render_menu_row(
            selected == ApprovalChoice::AlwaysAllowSimilar,
            "总是允许类似命令",
            "保存此前缀为可信规则",
        ).as_str(),
    ).concat(
        render_menu_row(
            selected == ApprovalChoice::Deny,
            "拒绝",
            "不运行这条命令",
        ).as_str(),
    )
}

// ---------------------------------------------------------------------------
// Where rules are kept
// ---------------------------------------------------------------------------

/// A text as a file name segment: other characters than letters, digits, `-` and `_`
/// become `-`, which are cut at both ends; `default` where nothing is left.
pub open spec fn file_segment(s: Seq<char>) -> Seq<char> {
    let dashed = Seq::new(
        s.len(),
        |i: int|
            if is_safe_char(s[i]) && s[i] != '.' {
                s[i]
            } else {
                '-'
            },
    );
    let t = trim_char(dashed, '-');
    if t.len() == 0 {
        "default"@
    } else {
        t
    }
}

/// A text as a file name segment.
pub fn sanitize_file_segment(input: &str) -> (r: String)
    ensures
        r@ == file_segment(input@),
{
    let v = to_chars(input);
    let mut dashed = String::new();
    let mut i: usize = 0;
    let ghost goal = Seq::new(
        input@.len(),
        |k: int|
            if is_safe_char(input@[k]) && input@[k] != '.' {
                input@[k]
            } else {
                '-'
            },
    );
    while i < v.len()
        invariant
            v@ == input@,
            i <= v@.len(),
            goal == Seq::new(
                input@.len(),
                |k: int|
                    if is_safe_char(input@[k]) && input@[k] != '.' {
                        input@[k]
                    } else {
                        '-'
                    },
            ),
            dashed@ == goal.take(i as int),
        decreases v.len() - i,
    {
        let c = v[i];
        if ('a' <= c && c <= 'z') || ('A' <= c && c <= 'Z') || ('0' <= c && c <= '9') || c == '-'
            || c == '_' {
            dashed.push(c);
        } else {
            dashed.push('-');
        }
        proof {
            assert(goal.take(i + 1) =~= goal.take(i as int).push(goal[i as int]));
        }
        i += 1;
    }
    proof {
        assert(goal.take(input@.len() as int) =~= goal);
    }
    let t = trim_matches(dashed.as_str(), '-');
    if to_chars(t.as_str()).len() == 0 {
        owned("default")
    } else {
        t
    }
}

/// The file that keeps the approval rules of a profile.
pub open spec fn approval_rules_file(state_root: Seq<char>, profile: Seq<char>) -> Seq<char> {
    joined_path(state_root, "command-approvals-"@ + file_segment(profile) + ".toml"@)
}

/// The file that keeps the approval rules of a profile.
pub fn command_approval_rules_path(store: &SessionStore, profile: &str) -> (r: String)
    ensures
        r@ == approval_rules_file(store@.state_root, profile@),
{
    let name = owned("command-approvals-").concat(sanitize_file_segment(profile).as_str()).concat(
        ".toml",
    );
    join(store.state_root(), name.as_str())
}

// ---------------------------------------------------------------------------
// Laws
// ---------------------------------------------------------------------------

/// A command that a rule allows runs without a question, and one that no rule allows
/// never does.
pub proof fn only_rules_skip_the_question(
    rules: Seq<CommandApprovalRuleView>,
    command: Seq<char>,
)
    ensures
        decision(rules, command) is Approved <==> is_allowed(rules, command),
{
}

/// Choosing to allow similar commands allows, from then on, every command that begins
/// with the rule, keeps every rule there was, and adds the rule at most once.
pub proof fn allowing_similar_allows_them(
    rules: Seq<CommandApprovalRuleView>,
    prefix: Seq<char>,
    command: Seq<char>,
)
    requires
        begins(trim_start(command), prefix),
    ensures
        ({
            let after = rules_after(ApprovalChoice::AlwaysAllowSimilar, rules, prefix);
            &&& is_allowed(after, command)
            &&& rules.is_prefix_of(after)
            &&& rules_after(ApprovalChoice::AlwaysAllowSimilar, after, prefix) == after
        }),
{
    let after = rules_after(ApprovalChoice::AlwaysAllowSimilar, rules, prefix);
    if has_rule(rules, prefix) {
        let i = choose|i: int| 0 <= i < rules.len() && (#[trigger] rules[i]).prefix == prefix;
        assert(allows(after[i], command));
        assert(rules =~= after.subrange(0, rules.len() as int));
    } else {
        assert(after[rules.len() as int].prefix == prefix);
        assert(allows(after[rules.len() as int], command));
        assert(rules =~= after.subrange(0, rules.len() as int));
    }
}

proof fn lemma_bare_word(word: Seq<char>)
    requires
        word.len() > 0,
        forall|i: int|
            0 <= i < word.len() ==> (#[trigger] word[i]) != '"' && word[i] != '\'',
    ensures
        unquoted_word(word) == word,
{
    assert(word[0] != '"' && word.last() != '"');
    assert(trim_char(word, '"') == word);
    assert(word[0] != '\'' && word.last() != '\'');
}

/// Choosing to allow commands similar to one that is written without quotes, its first
/// two words one space apart, allows that command itself.
pub proof fn allowing_similar_allows_itself(
    rules: Seq<CommandApprovalRuleView>,
    command: Seq<char>,
)
    requires
        words(command).len() >= 2,
        forall|i: int|
            0 <= i < command.len() ==> (#[trigger] command[i]) != '"' && command[i] != '\'',
        begins(trim_start(command), words(command)[0] + " "@ + words(command)[1]),
    ensures
        is_allowed(
            rules_after(ApprovalChoice::AlwaysAllowSimilar, rules, rule_for(command)),
            command,
        ),
{
    let ws = words(command);
    let t = trim_start(command);
    crate::text::lemma_trim_start_len(command);
    lemma_words_are_parts(command, ws[0], ws[1]);
    lemma_bare_word(ws[0]);
    lemma_bare_word(ws[1]);
    let lead = leading_words(command);
    assert(lead =~= seq![ws[0], ws[1]]);
    assert(lead.drop_last() =~= seq![ws[0]]);
    assert(seq![ws[0]].drop_last() =~= Seq::<Seq<char>>::empty());
    assert(bare_words(Seq::<Seq<char>>::empty()) =~= Seq::<Seq<char>>::empty());
    assert(bare_words(seq![ws[0]]) =~= seq![ws[0]]);
    assert(bare_words(lead) =~= seq![ws[0], ws[1]]);
    let both = ws[0] + " "@ + ws[1];
    assert(begins(t, ws[0])) by {
        assert(t.take(ws[0].len() as int) =~= t.take(both.len() as int).take(
            ws[0].len() as int,
        ));
        assert(both.take(ws[0].len() as int) =~= ws[0]);
    }
    allowing_similar_allows_them(rules, rule_for(command), command);
}

proof fn lemma_words_are_parts(command: Seq<char>, first: Seq<char>, second: Seq<char>)
    requires
        words(command).len() >= 2,
        first == words(command)[0],
        second == words(command)[1],
        forall|i: int|
            0 <= i < command.len() ==> (#[trigger] command[i]) != '"' && command[i] != '\'',
    ensures
        first.len() > 0,
        second.len() > 0,
        forall|i: int|
            0 <= i < first.len() ==> (#[trigger] first[i]) != '"' && first[i] != '\'',
        forall|i: int|
            0 <= i < second.len() ==> (#[trigger] second[i]) != '"' && second[i] != '\'',
{
    let t = trim_start(command);
    lemma_trim_keeps_chars(command);
    crate::text::lemma_trim_start_len(command);
    crate::text::lemma_word_len_bound(t);
    let k = crate::text::word_len(t) as int;
    assert(first == t.take(k));
    let rest = t.skip(k);
    assert(words(command) =~= seq![t.take(k)] + words(rest));
    assert(words(command)[1] == words(rest)[0]);
    let u = trim_start(rest);
    assert forall|i: int| 0 <= i < rest.len() implies (#[trigger] rest[i]) != '"' && rest[i]
        != '\'' by {
        assert(rest[i] == t[k + i]);
    }
    lemma_trim_keeps_chars(rest);
    crate::text::lemma_trim_start_len(rest);
    crate::text::lemma_word_len_bound(u);
    assert(second == u.take(crate::text::word_len(u) as int));
}

proof fn lemma_trim_keeps_chars(s: Seq<char>)
    requires
        forall|i: int| 0 <= i < s.len() ==> (#[trigger] s[i]) != '"' && s[i] != '\'',
    ensures
        forall|i: int|
            0 <= i < trim_start(s).len() ==> (#[trigger] trim_start(s)[i]) != '"' && trim_start(
                s,
            )[i] != '\'',
    decreases s.len(),
{
    if s.len() > 0 && is_space(s[0]) {
        let rest = s.drop_first();
        assert forall|i: int| 0 <= i < rest.len() implies (#[trigger] rest[i]) != '"' && rest[i]
            != '\'' by {
            assert(rest[i] == s[i + 1]);
        }
        lemma_trim_keeps_chars(rest);
        assert(trim_start(s) == trim_start(rest));
    } else {
        assert(trim_start(s) == s);
        assert forall|i: int| 0 <= i < trim_start(s).len() implies (#[trigger] trim_start(s)[i])
            != '"' && trim_start(s)[i] != '\'' by {
            assert(s[i] != '"' && s[i] != '\'');
        }
    }
}

} // verus!
