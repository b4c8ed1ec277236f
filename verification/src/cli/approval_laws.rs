//! What holds of every command that waits for approval.
use vstd::prelude::*;
use crate::agent::turn::ShellApproval;
use crate::cli::approval::{
    after_key, approval_head, approval_menu, approval_of, approval_question, approval_rules_file,
    bare_words, box_row, choice_of_line, decision, file_segment, is_allowed,
    leading_words, purpose, rule_for, rules_after, trim_char, trim_char_end, trim_char_start,
    unquoted_word, ApprovalChoice, ApprovalDecisionView, CommandApprovalRuleView, MenuKey,
};
use crate::cli::style::{BOLD_CYAN, DIM, MUTED, RESET, YELLOW};
use crate::cli::width::{padded, shortened};
use crate::path::{components, is_plain_name};
use crate::path_laws::joined_name_is_below;
use crate::text::{begins, is_space, lower, trim_start, trimmed, words};
use crate::text_laws::all_space;

verus! {

proof fn lemma_cut_start(run: Seq<char>, s: Seq<char>, c: char)
    requires
        forall|i: int| 0 <= i < run.len() ==> #[trigger] run[i] == c,
        s.len() > 0 ==> s[0] != c,
    ensures
        trim_char_start(run + s, c) == s,
    decreases run.len(),
{
    let all = run + s;
    if run.len() == 0 {
        assert(all =~= s);
    } else {
        let less = run.drop_first();
        assert(run[0] == c);
        assert forall|i: int| 0 <= i < less.len() implies #[trigger] less[i] == c by {
            assert(less[i] == run[i + 1]);
        }
        assert(all.drop_first() =~= less + s);
        lemma_cut_start(less, s, c);
    }
}

proof fn lemma_cut_end(s: Seq<char>, run: Seq<char>, c: char)
    requires
        forall|i: int| 0 <= i < run.len() ==> #[trigger] run[i] == c,
        s.len() > 0 ==> s.last() != c,
    ensures
        trim_char_end(s + run, c) == s,
    decreases run.len(),
{
    let all = s + run;
    if run.len() == 0 {
        assert(all =~= s);
    } else {
        let less = run.drop_last();
        assert(run[run.len() - 1] == c);
        assert forall|i: int| 0 <= i < less.len() implies #[trigger] less[i] == c by {
            assert(less[i] == run[i]);
        }
        assert(all.drop_last() =~= s + less);
        lemma_cut_end(s, less, c);
    }
}

/// A character is cut from both ends of a text, however often it stands there, and nothing
/// else is.
pub proof fn ends_are_cut_of_a_character(
    before: Seq<char>,
    s: Seq<char>,
    after: Seq<char>,
    c: char,
)
    requires
        forall|i: int| 0 <= i < before.len() ==> #[trigger] before[i] == c,
        forall|i: int| 0 <= i < after.len() ==> #[trigger] after[i] == c,
        s.len() > 0,
        s[0] != c,
        s.last() != c,
    ensures
        trim_char(before + s + after, c) == s,
{
    assert(before + s + after =~= before + (s + after));
    lemma_cut_start(before, s + after, c);
    lemma_cut_end(s, after, c);
}

/// A word in double or single quotes is the word between them.
pub proof fn quotes_are_not_part_of_a_word(word: Seq<char>)
    requires
        word.len() > 0,
        word[0] != '"' && word[0] != '\'',
        word.last() != '"' && word.last() != '\'',
    ensures
        unquoted_word(word) == word,
        unquoted_word(seq!['"'] + word + seq!['"']) == word,
        unquoted_word(seq!['\''] + word + seq!['\'']) == word,
{
    let none = Seq::<char>::empty();
    let single = seq!['\''] + word + seq!['\''];
    assert(none + word + none =~= word);
    assert(none + single + none =~= single);
    ends_are_cut_of_a_character(none, word, none, '"');
    ends_are_cut_of_a_character(none, word, none, '\'');
    ends_are_cut_of_a_character(seq!['"'], word, seq!['"'], '"');
    assert(single[0] == '\'' && single.last() == '\'');
    ends_are_cut_of_a_character(none, single, none, '"');
    ends_are_cut_of_a_character(seq!['\''], word, seq!['\''], '\'');
}

/// Whether a word neither begins nor ends with a quote.
pub open spec fn is_bare(word: Seq<char>) -> bool {
    &&& word.len() > 0
    &&& word[0] != '"' && word[0] != '\''
    &&& word.last() != '"' && word.last() != '\''
}

proof fn lemma_bare(all: Seq<Seq<char>>)
    requires
        forall|i: int| 0 <= i < all.len() ==> is_bare(#[trigger] all[i]),
    ensures
        bare_words(all) == all,
    decreases all.len(),
{
    if all.len() > 0 {
        let less = all.drop_last();
        assert forall|i: int| 0 <= i < less.len() implies is_bare(#[trigger] less[i]) by {
            assert(less[i] == all[i]);
        }
        lemma_bare(less);
        assert(is_bare(all[all.len() - 1]));
        quotes_are_not_part_of_a_word(all.last());
        assert(less.push(all.last()) =~= all);
    }
}

/// The rule for a command is its first word, and for a program with commands of its own its
/// first two.
pub proof fn rules_are_the_first_words(command: Seq<char>)
    requires
        forall|i: int| 0 <= i < words(command).len() ==> is_bare(#[trigger] words(command)[i]),
    ensures
        ({
            let ws = words(command);
            let grouped = ws.len() > 0 && (ws[0] == "cargo"@ || ws[0] == "git"@ || ws[0] == "npm"@
                || ws[0] == "pnpm"@ || ws[0] == "yarn"@ || ws[0] == "python"@ || ws[0]
                == "python3"@ || ws[0] == "rustc"@);
            &&& ws.len() == 0 ==> rule_for(command) == trimmed(command)
            &&& ws.len() == 1 ==> rule_for(command) == ws[0]
            &&& ws.len() >= 2 && grouped ==> rule_for(command) == ws[0] + " "@ + ws[1]
            &&& ws.len() >= 2 && !grouped ==> rule_for(command) == ws[0]
        }),
{
    let ws = words(command);
    let first = leading_words(command);
    assert forall|i: int| 0 <= i < first.len() implies is_bare(#[trigger] first[i]) by {
        assert(first[i] == ws[i]);
    }
    lemma_bare(first);
    if ws.len() > 0 {
        assert(first[0] == ws[0]);
    }
    if ws.len() > 1 {
        assert(first[1] == ws[1]);
    }
}

proof fn lemma_skip_space(gap: Seq<char>, s: Seq<char>)
    requires
        all_space(gap),
        s.len() > 0 ==> !is_space(s[0]),
    ensures
        trim_start(gap + s) == s,
    decreases gap.len(),
{
    let all = gap + s;
    if gap.len() == 0 {
        assert(all =~= s);
    } else {
        let less = gap.drop_first();
        assert(is_space(gap[0]));
        assert forall|i: int| 0 <= i < less.len() implies is_space(#[trigger] less[i]) by {
            assert(less[i] == gap[i + 1]);
        }
        assert(all.drop_first() =~= less + s);
        lemma_skip_space(less, s);
    }
}

/// A command that begins with a rule, behind white space or not, runs without a question.
pub proof fn rules_allow_what_begins_with_them(
    rules: Seq<CommandApprovalRuleView>,
    i: int,
    gap: Seq<char>,
    more: Seq<char>,
)
    requires
        0 <= i < rules.len(),
        rules[i].prefix.len() > 0,
        !is_space(rules[i].prefix[0]),
        all_space(gap),
    ensures
        is_allowed(rules, gap + (rules[i].prefix + more)),
        decision(rules, gap + (rules[i].prefix + more)) is Approved,
{
    let prefix = rules[i].prefix;
    let rest = prefix + more;
    lemma_skip_space(gap, rest);
    assert(rest.take(prefix.len() as int) =~= prefix);
    assert(crate::cli::approval::allows(rules[i], gap + rest));
}

/// Where no rule fits, the user is asked: what the command is for, and which rule would
/// allow commands of its kind.
pub proof fn other_commands_are_asked_about(
    rules: Seq<CommandApprovalRuleView>,
    command: Seq<char>,
)
    requires
        forall|i: int|
            0 <= i < rules.len() ==> !begins(
                trim_start(command),
                (#[trigger] rules[i]).prefix,
            ),
    ensures
        decision(rules, command) == (ApprovalDecisionView::Ask {
            summary: purpose(words(lower(trimmed(command)))),
            rule: rule_for(command),
        }),
{
    assert(!is_allowed(rules, command)) by {
        if is_allowed(rules, command) {
            let i = choose|i: int|
                0 <= i < rules.len() && crate::cli::approval::allows(
                    #[trigger] rules[i],
                    command,
                );
            assert(!begins(trim_start(command), rules[i].prefix));
        }
    }
}

/// Only the choice to allow similar commands adds a rule, and only where it is not there; a
/// command is refused by the choice to deny alone.
pub proof fn choices_do_what_they_say(
    rules: Seq<CommandApprovalRuleView>,
    prefix: Seq<char>,
    choice: ApprovalChoice,
)
    ensures
        !(choice is AlwaysAllowSimilar) ==> rules_after(choice, rules, prefix) == rules,
        (forall|i: int| 0 <= i < rules.len() ==> (#[trigger] rules[i]).prefix != prefix)
            ==> rules_after(ApprovalChoice::AlwaysAllowSimilar, rules, prefix) == rules.push(
            CommandApprovalRuleView { prefix },
        ),
        (exists|i: int| 0 <= i < rules.len() && (#[trigger] rules[i]).prefix == prefix)
            ==> rules_after(ApprovalChoice::AlwaysAllowSimilar, rules, prefix) == rules,
        approval_of(choice) == ShellApproval::Denied <==> choice is Deny,
        approval_of(choice) == ShellApproval::Approved <==> !(choice is Deny),
{
}

/// In the menu the arrows move and decide nothing, the enter key takes what is selected, the
/// escape key denies, and each choice has its letter, of either case.
pub proof fn keys_choose(selected: ApprovalChoice, c: char)
    ensures
        !after_key(selected, MenuKey::Up).1,
        !after_key(selected, MenuKey::Down).1,
        after_key(ApprovalChoice::AllowOnce, MenuKey::Down).0 is AlwaysAllowSimilar,
        after_key(ApprovalChoice::AlwaysAllowSimilar, MenuKey::Down).0 is Deny,
        after_key(ApprovalChoice::Deny, MenuKey::Down).0 is AllowOnce,
        after_key(after_key(selected, MenuKey::Down).0, MenuKey::Up).0 == selected,
        after_key(selected, MenuKey::Enter) == (selected, true),
        after_key(selected, MenuKey::Escape) == (ApprovalChoice::Deny, true),
        after_key(selected, MenuKey::Other) == (selected, false),
        after_key(selected, MenuKey::Letter(c)) == if c == 'y' || c == 'Y' {
            (ApprovalChoice::AllowOnce, true)
        } else if c == 'a' || c == 'A' {
            (ApprovalChoice::AlwaysAllowSimilar, true)
        } else if c == 'n' || c == 'N' {
            (ApprovalChoice::Deny, true)
        } else {
            (selected, false)
        },
{
}

/// A line allows once where it is blank or says yes, allows similar commands where it says
/// always, and denies whatever else it says.
pub proof fn lines_choose(line: Seq<char>)
    ensures
        ({
            let word = lower(trimmed(line));
            let yes = word.len() == 0 || word == "y"@ || word == "yes"@;
            let always = word == "a"@ || word == "always"@;
            &&& choice_of_line(line) is AllowOnce <==> yes
            &&& choice_of_line(line) is AlwaysAllowSimilar <==> always
            &&& choice_of_line(line) is Deny <==> !yes && !always
        }),
{
    reveal_strlit("");
    reveal_strlit("y");
    reveal_strlit("yes");
    reveal_strlit("a");
    reveal_strlit("always");
    let word = lower(trimmed(line));
    assert("y"@[0] == 'y' && "a"@[0] == 'a');
    assert("yes"@.len() == 3 && "always"@.len() == 6);
    if word.len() == 0 {
        assert(word =~= ""@);
    }
}

/// What a command is for is told by its first two words alone.
pub proof fn purposes_are_told_by_two_words(
    first: Seq<char>,
    second: Seq<char>,
    rest: Seq<Seq<char>>,
)
    ensures
        purpose(seq![first, second] + rest) == purpose(seq![first, second]),
        purpose(Seq::empty()) == "执行命令行命令"@,
        ({
            let told = purpose(seq![first, second]);
            &&& first == "cargo"@ ==> told == if second == "test"@ {
                "运行 Rust 测试验证项目"@
            } else if second == "check"@ {
                "检查 Rust 项目类型和编译错误"@
            } else if second == "fmt"@ {
                "格式化 Rust 源码"@
            } else if second == "run"@ {
                "运行 Rust 应用"@
            } else if second == "build"@ {
                "构建 Rust 项目"@
            } else {
                "运行 Cargo 命令"@
            }
            &&& first == "git"@ ==> told == if second == "status"@ {
                "查看仓库状态"@
            } else if second == "diff"@ {
                "查看未提交的代码改动"@
            } else if second == "log"@ {
                "查看提交历史"@
            } else if second == "add"@ {
                "暂存准备提交的文件"@
            } else if second == "commit"@ {
                "创建 Git 提交"@
            } else if second == "push"@ {
                "推送本地提交到远端仓库"@
            } else if second == "pull"@ {
                "拉取远端改动到本地仓库"@
            } else {
                "运行 Git 命令"@
            }
            &&& first == "npm"@ || first == "pnpm"@ || first == "yarn"@ ==> told == if second
                == "test"@ {
                "运行 JavaScript 项目测试"@
            } else if second == "run"@ {
                "运行包脚本"@
            } else if second == "install"@ || second == "add"@ {
                "安装包依赖"@
            } else {
                "运行 JavaScript 包管理命令"@
            }
        }),
{
    let all = seq![first, second] + rest;
    assert(all[0] == first && all[1] == second);
    reveal_strlit("cargo");
    reveal_strlit("git");
    reveal_strlit("npm");
    reveal_strlit("pnpm");
    reveal_strlit("yarn");
    assert("cargo"@.len() == 5 && "git"@.len() == 3 && "npm"@.len() == 3);
    assert("pnpm"@.len() == 4 && "yarn"@.len() == 4);
    assert("git"@[0] == 'g' && "npm"@[0] == 'n');
}

/// The simple commands are told by their name, in the shell of either system.
pub proof fn simple_commands_are_told_by_name(name: Seq<char>, rest: Seq<Seq<char>>)
    ensures
        ({
            let told = purpose(seq![name] + rest);
            &&& name == "python"@ || name == "python3"@ ==> told == "运行 Python 脚本或内联命令"@
            &&& name == "mkdir"@ ==> told == "创建目录"@
            &&& name == "dir"@ || name == "ls"@ ==> told == "列出目录中的文件"@
            &&& name == "type"@ || name == "cat"@ ==> told == "打印文件内容"@
            &&& name == "del"@ || name == "rm"@ ==> told == "删除文件或目录"@
            &&& name == "copy"@ || name == "cp"@ ==> told == "复制文件或目录"@
            &&& name == "move"@ || name == "mv"@ ==> told == "移动或重命名文件或目录"@
        }),
{
    assert((seq![name] + rest)[0] == name);
    reveal_strlit("cargo");
    reveal_strlit("git");
    reveal_strlit("npm");
    reveal_strlit("pnpm");
    reveal_strlit("yarn");
    reveal_strlit("python");
    reveal_strlit("python3");
    reveal_strlit("mkdir");
    reveal_strlit("dir");
    reveal_strlit("ls");
    reveal_strlit("type");
    reveal_strlit("cat");
    reveal_strlit("del");
    reveal_strlit("rm");
    reveal_strlit("copy");
    reveal_strlit("cp");
    reveal_strlit("move");
    reveal_strlit("mv");
    assert("cargo"@.len() == 5 && "cargo"@[0] == 'c');
    assert("git"@.len() == 3 && "git"@[0] == 'g');
    assert("npm"@.len() == 3 && "npm"@[0] == 'n');
    assert("pnpm"@.len() == 4 && "pnpm"@[0] == 'p');
    assert("yarn"@.len() == 4 && "yarn"@[0] == 'y');
    assert("python"@.len() == 6 && "python3"@.len() == 7);
    assert("mkdir"@.len() == 5 && "mkdir"@[0] == 'm');
    assert("dir"@.len() == 3 && "dir"@[0] == 'd' && "dir"@[1] == 'i');
    assert("del"@.len() == 3 && "del"@[0] == 'd' && "del"@[1] == 'e');
    assert("cat"@.len() == 3 && "cat"@[0] == 'c');
    assert("type"@.len() == 4 && "type"@[0] == 't');
    assert("copy"@.len() == 4 && "copy"@[0] == 'c');
    assert("move"@.len() == 4 && "move"@[0] == 'm');
    assert("ls"@.len() == 2 && "ls"@[0] == 'l');
    assert("rm"@.len() == 2 && "rm"@[0] == 'r');
    assert("cp"@.len() == 2 && "cp"@[0] == 'c');
    assert("mv"@.len() == 2 && "mv"@[0] == 'm');
}

/// Whether a character stays in the name of a file.
pub open spec fn stays_in_file_name(c: char) -> bool {
    ('a' <= c && c <= 'z') || ('A' <= c && c <= 'Z') || ('0' <= c && c <= '9') || c == '-' || c
        == '_'
}

/// A profile in the name of a file keeps its letters, digits, hyphens and underscores; each
/// other character becomes a hyphen, and no hyphen is left at either end.
pub proof fn file_names_keep_safe_characters(s: Seq<char>, i: int)
    requires
        0 <= i < s.len(),
        stays_in_file_name(s[0]) && s[0] != '-',
        stays_in_file_name(s.last()) && s.last() != '-',
    ensures
        file_segment(s).len() == s.len(),
        stays_in_file_name(s[i]) ==> file_segment(s)[i] == s[i],
        !stays_in_file_name(s[i]) ==> file_segment(s)[i] == '-',
{
    let dashed = Seq::new(
        s.len(),
        |k: int|
            if crate::store::is_safe_char(s[k]) && s[k] != '.' {
                s[k]
            } else {
                '-'
            },
    );
    let none = Seq::<char>::empty();
    assert(none + dashed + none =~= dashed);
    assert(dashed[0] == s[0] && dashed.last() == s.last());
    ends_are_cut_of_a_character(none, dashed, none, '-');
}

/// The name of a file is never empty: where nothing is left of a profile, it is `default`.
pub proof fn file_names_are_never_empty(s: Seq<char>)
    requires
        forall|i: int| 0 <= i < s.len() ==> !stays_in_file_name(#[trigger] s[i]) || s[i] == '-',
    ensures
        file_segment(s) == "default"@,
{
    let dashed = Seq::new(
        s.len(),
        |k: int|
            if crate::store::is_safe_char(s[k]) && s[k] != '.' {
                s[k]
            } else {
                '-'
            },
    );
    let none = Seq::<char>::empty();
    assert forall|i: int| 0 <= i < dashed.len() implies #[trigger] dashed[i] == '-' by {
        assert(!stays_in_file_name(s[i]) || s[i] == '-');
    }
    assert(dashed + none =~= dashed);
    lemma_cut_start(dashed, none, '-');
    assert(none + none =~= none);
    lemma_cut_end(none, none, '-');
}

proof fn lemma_cut_keeps_start(s: Seq<char>, c: char)
    requires
        forall|i: int| 0 <= i < s.len() ==> stays_in_file_name(#[trigger] s[i]),
    ensures
        forall|i: int|
            0 <= i < trim_char_start(s, c).len() ==> stays_in_file_name(
                #[trigger] trim_char_start(s, c)[i],
            ),
    decreases s.len(),
{
    if s.len() > 0 && s[0] == c {
        let less = s.drop_first();
        assert forall|i: int| 0 <= i < less.len() implies stays_in_file_name(#[trigger] less[i]) by {
            assert(less[i] == s[i + 1]);
        }
        lemma_cut_keeps_start(less, c);
    }
    let t = trim_char_start(s, c);
    assert forall|i: int| 0 <= i < t.len() implies stays_in_file_name(#[trigger] t[i]) by {
        if s.len() > 0 && s[0] == c {
            assert(t == trim_char_start(s.drop_first(), c));
            assert(stays_in_file_name(trim_char_start(s.drop_first(), c)[i]));
        } else {
            assert(t == s);
            assert(stays_in_file_name(s[i]));
        }
    }
}

proof fn lemma_cut_keeps_end(s: Seq<char>, c: char)
    requires
        forall|i: int| 0 <= i < s.len() ==> stays_in_file_name(#[trigger] s[i]),
    ensures
        forall|i: int|
            0 <= i < trim_char_end(s, c).len() ==> stays_in_file_name(
                #[trigger] trim_char_end(s, c)[i],
            ),
    decreases s.len(),
{
    if s.len() > 0 && s.last() == c {
        let less = s.drop_last();
        assert forall|i: int| 0 <= i < less.len() implies stays_in_file_name(#[trigger] less[i]) by {
            assert(less[i] == s[i]);
        }
        lemma_cut_keeps_end(less, c);
    }
    let t = trim_char_end(s, c);
    assert forall|i: int| 0 <= i < t.len() implies stays_in_file_name(#[trigger] t[i]) by {
        if s.len() > 0 && s.last() == c {
            assert(t == trim_char_end(s.drop_last(), c));
            assert(stays_in_file_name(trim_char_end(s.drop_last(), c)[i]));
        } else {
            assert(t == s);
            assert(stays_in_file_name(s[i]));
        }
    }
}

/// The name of a file that is kept for a profile is one that a directory entry can have.
pub proof fn kept_names_are_plain(lead: Seq<char>, profile: Seq<char>)
    requires
        lead.len() > 0,
        lead[0] != '.',
        forall|i: int| 0 <= i < lead.len() ==> #[trigger] lead[i] != '/',
    ensures
        forall|i: int|
            0 <= i < file_segment(profile).len() ==> stays_in_file_name(
                #[trigger] file_segment(profile)[i],
            ),
        file_segment(profile).len() > 0,
        is_plain_name(lead + file_segment(profile) + ".toml"@),
{
    let dashed = Seq::new(
        profile.len(),
        |k: int|
            if crate::store::is_safe_char(profile[k]) && profile[k] != '.' {
                profile[k]
            } else {
                '-'
            },
    );
    lemma_cut_keeps_start(dashed, '-');
    lemma_cut_keeps_end(trim_char_start(dashed, '-'), '-');
    reveal_strlit("default");
    reveal_strlit(".toml");
    let segment = file_segment(profile);
    let name = lead + segment + ".toml"@;
    assert(name[0] == lead[0]);
    assert(crate::path::dot()[0] == '.' && crate::path::dot_dot()[0] == '.');
    assert forall|i: int| 0 <= i < name.len() implies #[trigger] name[i] != '/' by {
        if i < lead.len() {
            assert(name[i] == lead[i]);
        } else if i < lead.len() + segment.len() {
            assert(name[i] == segment[i - lead.len()]);
        }
    }
}

/// The rules of a profile are kept in a file of their own in the state directory.
pub proof fn rules_are_kept_by_profile(state_root: Seq<char>, profile: Seq<char>)
    ensures
        components(approval_rules_file(state_root, profile)) == components(state_root).push(
            "command-approvals-"@ + file_segment(profile) + ".toml"@,
        ),
{
    reveal_strlit("command-approvals-");
    kept_names_are_plain("command-approvals-"@, profile);
    joined_name_is_below(state_root, "command-approvals-"@ + file_segment(profile) + ".toml"@);
}

/// The question shows what the command is for, the command itself, whole, and the rule.
pub proof fn questions_show_the_whole_command(
    command: Seq<char>,
    summary: Seq<char>,
    rule: Seq<char>,
)
    ensures
        approval_question(command, summary, rule) == "\n"@ + (DIM@ + "╭─"@ + RESET@ + " "@ + YELLOW@
            + "! 命令确认"@ + RESET@ + "\n"@) + (DIM@ + "│"@ + RESET@ + " "@ + MUTED@ + "意图"@
            + RESET@ + "  "@ + summary + "\n"@) + (DIM@ + "│"@ + RESET@ + " "@ + MUTED@ + "命令"@
            + RESET@ + "  "@ + command + "\n"@) + (DIM@ + "│"@ + RESET@ + " "@ + MUTED@ + "规则"@
            + RESET@ + "  "@ + rule + "\n"@) + DIM@ + "╰─"@ + RESET@ + " "@ + MUTED@
            + "回车/y 本次允许 · a 总是允许类似命令 · n 拒绝"@ + RESET@ + "\n"@ + BOLD_CYAN@
            + "选择>"@ + RESET@ + " "@,
{
}

/// What a row of the menu is: its label in twenty-two columns, marked where it is selected,
/// and what it does.
pub open spec fn shown_choice(selected: bool, label: Seq<char>, help: Seq<char>) -> Seq<char> {
    if selected {
        DIM@ + "│"@ + RESET@ + " "@ + BOLD_CYAN@ + padded(">"@ + " "@ + label, 22) + RESET@ + " "@
            + MUTED@ + help + RESET@ + "\n"@
    } else {
        DIM@ + "│"@ + RESET@ + " "@ + MUTED@ + padded(" "@ + " "@ + label, 22) + RESET@ + " "@
            + MUTED@ + help + RESET@ + "\n"@
    }
}

/// The menu shows the same, the command in ninety-six columns, and the three choices in their
/// order, of which the selected one is marked.
pub proof fn menus_mark_the_selected_choice(
    command: Seq<char>,
    summary: Seq<char>,
    rule: Seq<char>,
    selected: ApprovalChoice,
) -> (head: Seq<char>)
    ensures
        approval_menu(command, summary, rule, selected) == head + shown_choice(
            selected == ApprovalChoice::AllowOnce,
            "本次允许"@,
            "只运行当前这条命令"@,
        ) + shown_choice(
            selected == ApprovalChoice::AlwaysAllowSimilar,
            "总是允许类似命令"@,
            "保存此前缀为可信规则"@,
        ) + shown_choice(selected == ApprovalChoice::Deny, "拒绝"@, "不运行这条命令"@),
        head == (DIM@ + "╭─"@ + RESET@ + " "@ + YELLOW@ + "! 命令确认"@ + RESET@ + "\n"@) + (DIM@
            + "│"@ + RESET@ + " "@ + MUTED@ + "意图"@ + RESET@ + "  "@ + summary + "\n"@) + (DIM@
            + "│"@ + RESET@ + " "@ + MUTED@ + "命令"@ + RESET@ + "  "@ + shortened(command, 96)
            + "\n"@) + (DIM@ + "│"@ + RESET@ + " "@ + MUTED@ + "规则"@ + RESET@ + "  "@ + rule
            + "\n"@) + DIM@ + "│"@ + RESET@ + " "@ + MUTED@
            + "↑/↓ 切换，回车确认。快捷键：y 本次，a 总是，n 拒绝"@ + RESET@ + "\n"@,
{
    approval_head() + box_row("意图"@, summary) + box_row("命令"@, shortened(command, 96))
        + box_row("规则"@, rule) + DIM@ + "│"@ + RESET@ + " "@ + MUTED@
        + "↑/↓ 切换，回车确认。快捷键：y 本次，a 总是，n 拒绝"@ + RESET@ + "\n"@
}

} // verus!
