use std::collections::BTreeMap;

use rust_codingagent::cli::app::{App, Cli, Commands};
use rust_codingagent::cli::approval::{
    apply_choice, approval_from_line, approval_key, command_approval_rules_path,
    command_matches_rule, command_rule_prefix, decide_approval, describe_shell_command,
    next_approval_choice, previous_approval_choice, render_approval_menu,
    render_approval_question, sanitize_file_segment, trim_matches, ApprovalChoice,
    ApprovalDecision, CommandApprovalRule, MenuKey,
};
use rust_codingagent::cli::cards::{card_width, render_banner, terminal_content_width};
use rust_codingagent::cli::config::{
    config_file_to_read, default_workspace, AppConfig, PartialAppConfig, ProviderConfig,
};
use rust_codingagent::cli::intent::{
    is_exit_command, is_plain_help_request, is_session_switch_request, LoopAction, LoopEvent,
    MainLoopStatus,
};
use rust_codingagent::cli::startup::{
    default_choice, next_startup_choice, previous_startup_choice, render_startup_menu,
    render_startup_question, session_preview, sessions_with_messages, shows_startup_menu,
    startup_choice_from_line, startup_key, startup_menu_lines, startup_session_item, StartupChoice,
    StartupSessionItem,
};
use rust_codingagent::cli::suggestions::{command_bar_hint, complete_line, suggestions_for_line};
use rust_codingagent::cli::width::{
    cut_start_to_width, cut_to_width, display_width, pad_to_width, truncate_display,
    truncate_right, truncate_str, two_column_line,
};
use rust_codingagent::agent::turn::ShellApproval;
use rust_codingagent::message::Message;
use rust_codingagent::provider::ProviderConfig as CoreProviderConfig;
use rust_codingagent::session::{Session, SessionSummary};
use rust_codingagent::store::SessionStore;

fn text(s: &str) -> String {
    s.to_string()
}

#[test]
fn command_bar_shows_plan_options_after_space() {
    let hint = command_bar_hint("/计划 ").unwrap();

    assert!(hint.starts_with("\n  可选："));
    assert!(hint.contains("/计划 执行"));
    assert!(hint.contains("执行所有剩余步骤"));
    assert!(hint.contains("/计划 下一步"));
    assert!(hint.contains("/计划 <任务>"));
}

#[test]
fn command_bar_filters_plan_options() {
    let suggestions = suggestions_for_line("/计划 执");

    assert_eq!(suggestions.len(), 1);
    assert_eq!(suggestions[0].command, "/计划 执行");
    assert_eq!(suggestions[0].description, "执行所有剩余步骤");
}

#[test]
fn command_bar_ignores_natural_language() {
    assert!(command_bar_hint("help me write code").is_none());
}

#[test]
fn command_bar_covers_every_group() {
    assert_eq!(
        command_bar_hint("/工").unwrap(),
        "\n  可选：/工具 - 列出可用工具"
    );
    let rollback = suggestions_for_line("/rollback ");
    assert_eq!(rollback.len(), 4);
    assert_eq!(rollback[0].command, "/rollback 列表");
    assert_eq!(rollback[0].description, "显示回滚记录");
    assert_eq!(suggestions_for_line("/会话 切")[0].description, "切换到指定会话");
    assert_eq!(suggestions_for_line("/审批 ")[0].description, "清除保存的审批规则");
    assert_eq!(suggestions_for_line("/plan <任")[0].command, "/plan <任务>");
    assert!(suggestions_for_line("/unknown x").is_empty());
    assert!(command_bar_hint("/不存在").is_none());
    assert_eq!(suggestions_for_line("").len(), 11);
}

#[test]
fn completion_starts_at_the_last_token() {
    assert_eq!(complete_line("hello"), (0, vec![]));
    assert_eq!(complete_line("/会"), (0, vec![text("/会话"), text("/会话列表")]));
    let (start, options) = complete_line("/计划 执");
    assert_eq!(start, "/计划 ".len());
    assert_eq!(options, vec![text("执行")]);
    assert_eq!(complete_line("/回滚 ").1.len(), 4);
    assert_eq!(complete_line("/other x").1.len(), 0);
}

#[test]
fn startup_choices_wrap_through_new_session() {
    assert_eq!(
        next_startup_choice(StartupChoice::Existing(1), 2),
        StartupChoice::NewSession
    );
    assert_eq!(
        next_startup_choice(StartupChoice::NewSession, 2),
        StartupChoice::Existing(0)
    );
    assert_eq!(
        previous_startup_choice(StartupChoice::Existing(0), 2),
        StartupChoice::NewSession
    );
}

#[test]
fn startup_moves_undo_each_other() {
    let all = [
        StartupChoice::Existing(0),
        StartupChoice::Existing(1),
        StartupChoice::Existing(2),
        StartupChoice::NewSession,
    ];
    for choice in all {
        assert_eq!(previous_startup_choice(next_startup_choice(choice, 3), 3), choice);
        assert_eq!(next_startup_choice(previous_startup_choice(choice, 3), 3), choice);
    }
}

#[test]
fn startup_keys_and_lines_choose() {
    let at = StartupChoice::Existing(1);
    assert_eq!(startup_key(at, MenuKey::Up, 3, 0), (StartupChoice::Existing(0), false));
    assert_eq!(startup_key(at, MenuKey::Down, 3, 0), (StartupChoice::Existing(2), false));
    assert_eq!(startup_key(at, MenuKey::Enter, 3, 0), (at, true));
    assert_eq!(startup_key(at, MenuKey::Escape, 3, 2), (StartupChoice::Existing(2), true));
    assert_eq!(startup_key(at, MenuKey::Letter('N'), 3, 0), (StartupChoice::NewSession, true));
    assert_eq!(startup_key(at, MenuKey::Letter('3'), 3, 0), (StartupChoice::Existing(2), true));
    assert_eq!(startup_key(at, MenuKey::Letter('4'), 3, 0), (at, false));
    assert_eq!(startup_key(at, MenuKey::Letter('0'), 3, 0), (at, false));
    assert_eq!(startup_key(at, MenuKey::Other, 3, 0), (at, false));
    assert_eq!(startup_choice_from_line(" N \n", 3, 1), StartupChoice::NewSession);
    assert_eq!(startup_choice_from_line("\n", 3, 1), StartupChoice::Existing(1));
    assert_eq!(startup_choice_from_line("3", 3, 1), StartupChoice::Existing(2));
    assert_eq!(startup_choice_from_line("+2", 3, 0), StartupChoice::Existing(1));
    assert_eq!(startup_choice_from_line("4", 3, 1), StartupChoice::Existing(1));
    assert_eq!(startup_choice_from_line("x", 3, 1), StartupChoice::Existing(1));
}

fn item(id: &str, count: usize, active: bool) -> StartupSessionItem {
    StartupSessionItem {
        id: text(id),
        message_count: count,
        model: text("m"),
        updated_at_ms: 5,
        preview: text("hello"),
        active,
    }
}

#[test]
fn startup_menu_offers_sessions_with_messages() {
    let items = vec![item("a", 0, false), item("b", 2, false), item("c", 1, true)];
    let kept = sessions_with_messages(&items);
    assert_eq!(kept.len(), 2);
    assert_eq!(kept[0].id, "b");
    assert_eq!(default_choice(&kept), 1);
    assert_eq!(default_choice(&vec![item("b", 2, false)]), 0);
    assert!(!shows_startup_menu(&None, false, false));
    assert!(shows_startup_menu(&Some(text("always")), false, false));
    assert!(!shows_startup_menu(&Some(text("0")), false, false));
    assert!(shows_startup_menu(&None, true, false));
    let menu = render_startup_menu(64, &kept, Some(StartupChoice::Existing(1)));
    assert!(menu.contains("> 2. hello"));
    assert!(menu.contains("  1. hello"));
    assert!(menu.contains("消息 1 · 模型 m · 当前"));
    assert!(menu.contains("  n. 新建会话"));
    assert_eq!(menu.lines().count(), usize::from(startup_menu_lines(kept.len())));
    let typed = render_startup_menu(64, &kept, None);
    assert!(typed.contains("输入序号确认，n 新建。"));
    assert_eq!(render_startup_question(0), "选择上下文 [回车=1]：");
}

#[test]
fn session_items_show_a_preview() {
    let provider = CoreProviderConfig::new("p", "m");
    let mut session = Session::new("test", "/ws", provider, 7);
    assert_eq!(session_preview(&session), "（空会话）");
    session.add_message(Message::user("  first  "));
    session.add_message(Message::assistant("answer"));
    assert_eq!(session_preview(&session), "first");
    let summary = SessionSummary::from(&session);
    let shown = startup_session_item(&summary, Some(text("first")), &session.id);
    assert!(shown.active);
    assert_eq!(shown.message_count, 2);
    let lost = startup_session_item(&summary, None, "other");
    assert_eq!(lost.preview, "(unable to load preview)");
    assert!(!lost.active);
}

#[test]
fn loads_partial_toml_config() {
    let file = PartialAppConfig {
        profile: Some(text("demo")),
        workspace: Some(text("/tmp/rust-codingagent-demo")),
        log_level: Some(text("debug")),
        provider_name: Some(text("openai-compatible")),
        provider_model: Some(text("demo-model")),
        api_base: None,
        api_key: None,
    };
    let none = PartialAppConfig {
        profile: None,
        workspace: None,
        log_level: None,
        provider_name: None,
        provider_model: None,
        api_base: None,
        api_key: None,
    };
    let config = AppConfig::load("/home/me", Some(file), none);

    assert_eq!(config.profile, "demo");
    assert_eq!(config.workspace, "/tmp/rust-codingagent-demo");
    assert_eq!(config.log_level, "debug");
    assert_eq!(config.provider.name, "openai-compatible");
    assert_eq!(config.provider.model, "demo-model");
}

#[test]
fn environment_overrides_file_and_defaults() {
    let file = PartialAppConfig {
        profile: Some(text("file")),
        workspace: None,
        log_level: None,
        provider_name: None,
        provider_model: Some(text("file-model")),
        api_base: Some(text("http://file")),
        api_key: None,
    };
    let environment = PartialAppConfig {
        profile: Some(text("env")),
        workspace: None,
        log_level: None,
        provider_name: None,
        provider_model: None,
        api_base: None,
        api_key: Some(text("SECRET-REDACTED")),
    };
    let config = AppConfig::load("/w", Some(file), environment);
    assert_eq!(config.profile, "env");
    assert_eq!(config.workspace, "/w");
    assert_eq!(config.log_level, "warn");
    assert_eq!(config.provider.name, "local");
    assert_eq!(config.provider.model, "file-model");
    assert_eq!(config.provider.api_base, Some(text("http://file")));
    assert_eq!(config.provider.api_key, Some(text("SECRET-REDACTED")));
    assert_eq!(config_file_to_read(None, false), None);
    assert_eq!(config_file_to_read(None, true), Some(text("rust-codingagent.toml")));
    assert_eq!(config_file_to_read(Some(text("a.toml")), true), Some(text("a.toml")));
    assert_eq!(default_workspace(Some(text("/home/me")), true, None), "/home/me/workspace");
    assert_eq!(default_workspace(Some(text("/home/me")), false, Some(text("/cwd"))), "/cwd");
    assert_eq!(default_workspace(None, false, None), ".");
}

#[test]
fn enters_loop_and_exits_by_command() {
    let config = AppConfig {
        profile: text("test"),
        workspace: text("/tmp/rust-codingagent-repl-test"),
        log_level: text("off"),
        provider: ProviderConfig {
            name: text("local"),
            model: text("stub"),
            api_base: None,
            api_key: Some(text("sk-test")),
        },
    };
    let app = App::new(config);
    let mut output = render_banner(74, &app.config().workspace, "local", "stub", "s-1-1", 0);
    let mut status = None;
    for line in ["hello\n", "退出\n"] {
        match app.run(LoopEvent::Line { text: text(line) }) {
            LoopAction::Stop { text, status: s } => {
                output.push_str(&text);
                status = Some(s);
            }
            LoopAction::Turn { input } => assert_eq!(input, "hello"),
            other => panic!("{other:?}"),
        }
    }
    assert_eq!(status, Some(MainLoopStatus::ExitedByCommand));
    assert!(output.contains("南开 Rust 编程助手"));
    assert!(output.contains("已退出。"));
}

#[test]
fn loop_events_have_their_actions() {
    let app = App::new(AppConfig::default_for("/w"));
    assert_eq!(
        app.run(LoopEvent::Eof),
        LoopAction::Stop { text: text("\n"), status: MainLoopStatus::ExitedByEof }
    );
    assert_eq!(app.run(LoopEvent::Line { text: text("  \n") }), LoopAction::Prompt);
    assert_eq!(app.run(LoopEvent::Line { text: text("换会话") }), LoopAction::ShowSessions);
    assert_eq!(app.run(LoopEvent::Line { text: text("帮助") }), LoopAction::ShowHelp);
    assert_eq!(
        app.run(LoopEvent::Line { text: text(" /工具 ") }),
        LoopAction::Command { input: text("/工具") }
    );
    assert_eq!(
        app.run(LoopEvent::Interrupted),
        LoopAction::Notice { text: text("^C（输入“退出”结束）\n") }
    );
    assert_eq!(
        app.run(LoopEvent::ReadFailed { reason: text("x") }),
        LoopAction::Stop {
            text: text("读取输入失败：x\n"),
            status: MainLoopStatus::ExitedByEof
        }
    );
    assert_eq!(Cli { config: None, command: None }.command_or_run(), Commands::Run);
    assert_eq!(
        Cli { config: None, command: Some(Commands::Config) }.command_or_run(),
        Commands::Config
    );
}

#[test]
fn command_approval_rule_prefixes_are_scoped() {
    assert_eq!(
        command_rule_prefix("cargo test -p rust-codingagent-cli"),
        "cargo test"
    );
    assert_eq!(command_rule_prefix("git status --short"), "git status");
    assert_eq!(command_rule_prefix("mkdir dist"), "mkdir");
}

#[test]
fn rule_prefixes_drop_quotes_and_blanks() {
    assert_eq!(command_rule_prefix("\"cargo\" 'test'"), "cargo test");
    assert_eq!(command_rule_prefix("cargo"), "cargo");
    assert_eq!(command_rule_prefix("  "), "");
    assert_eq!(command_rule_prefix("\"\" ls"), "ls");
    assert_eq!(trim_matches("--a-b--", '-'), "a-b");
    assert_eq!(trim_matches("---", '-'), "");
}

#[test]
fn shell_command_descriptions_explain_intent() {
    assert_eq!(
        describe_shell_command("cargo test -p rust-codingagent-cli"),
        "运行 Rust 测试验证项目"
    );
    assert_eq!(
        describe_shell_command("git push origin main"),
        "推送本地提交到远端仓库"
    );
    assert_eq!(describe_shell_command("mkdir dist"), "创建目录");
}

#[test]
fn other_command_descriptions() {
    assert_eq!(describe_shell_command("  "), "执行命令行命令");
    assert_eq!(describe_shell_command("CARGO Build"), "构建 Rust 项目");
    assert_eq!(describe_shell_command("cargo"), "运行 Cargo 命令");
    assert_eq!(describe_shell_command("git stash"), "运行 Git 命令");
    assert_eq!(describe_shell_command("pnpm add x"), "安装包依赖");
    assert_eq!(describe_shell_command("yarn"), "运行 JavaScript 包管理命令");
    assert_eq!(describe_shell_command("python3 a.py"), "运行 Python 脚本或内联命令");
    assert_eq!(describe_shell_command("rm -rf x"), "删除文件或目录");
    assert_eq!(describe_shell_command("curl x"), "执行模型请求的命令行命令");
}

#[test]
fn approval_menu_choices_wrap() {
    assert_eq!(
        next_approval_choice(ApprovalChoice::AllowOnce),
        ApprovalChoice::AlwaysAllowSimilar
    );
    assert_eq!(
        next_approval_choice(ApprovalChoice::Deny),
        ApprovalChoice::AllowOnce
    );
    assert_eq!(
        previous_approval_choice(ApprovalChoice::AllowOnce),
        ApprovalChoice::Deny
    );
}

#[test]
fn approval_moves_undo_each_other() {
    let all = [
        ApprovalChoice::AllowOnce,
        ApprovalChoice::AlwaysAllowSimilar,
        ApprovalChoice::Deny,
    ];
    for choice in all {
        assert_eq!(previous_approval_choice(next_approval_choice(choice)), choice);
        assert_eq!(next_approval_choice(previous_approval_choice(choice)), choice);
    }
}

#[test]
fn approval_keys_and_lines() {
    let at = ApprovalChoice::AlwaysAllowSimilar;
    assert_eq!(approval_key(at, MenuKey::Up), (ApprovalChoice::AllowOnce, false));
    assert_eq!(approval_key(at, MenuKey::Down), (ApprovalChoice::Deny, false));
    assert_eq!(approval_key(at, MenuKey::Enter), (at, true));
    assert_eq!(approval_key(at, MenuKey::Escape), (ApprovalChoice::Deny, true));
    assert_eq!(approval_key(at, MenuKey::Letter('Y')), (ApprovalChoice::AllowOnce, true));
    assert_eq!(approval_key(at, MenuKey::Letter('a')), (at, true));
    assert_eq!(approval_key(at, MenuKey::Letter('n')), (ApprovalChoice::Deny, true));
    assert_eq!(approval_key(at, MenuKey::Letter('z')), (at, false));
    assert_eq!(approval_key(at, MenuKey::Other), (at, false));
    assert_eq!(approval_from_line("\n"), ApprovalChoice::AllowOnce);
    assert_eq!(approval_from_line(" YES "), ApprovalChoice::AllowOnce);
    assert_eq!(approval_from_line("always"), ApprovalChoice::AlwaysAllowSimilar);
    assert_eq!(approval_from_line("what"), ApprovalChoice::Deny);
}

/// The text of a file of rules.
fn rules_to_toml(rules: &[CommandApprovalRule]) -> String {
    let entries = rules
        .iter()
        .map(|rule| {
            let mut table = toml::Table::new();
            table.insert(text("prefix"), toml::Value::String(rule.prefix.clone()));
            toml::Value::Table(table)
        })
        .collect();
    let mut file = toml::Table::new();
    file.insert(text("rules"), toml::Value::Array(entries));
    toml::to_string_pretty(&file).unwrap()
}

/// The rules in the text of a file.
fn rules_from_toml(content: &str) -> Vec<CommandApprovalRule> {
    let file: toml::Table = toml::from_str(content).unwrap();
    file["rules"]
        .as_array()
        .unwrap()
        .iter()
        .map(|entry| CommandApprovalRule { prefix: text(entry["prefix"].as_str().unwrap()) })
        .collect()
}

#[test]
fn command_approval_rules_round_trip() {
    let rules = vec![
        CommandApprovalRule { prefix: text("cargo test") },
        CommandApprovalRule { prefix: text("git status") },
    ];
    let store = SessionStore::new("/ws", "test/profile");
    let path = command_approval_rules_path(&store, "test/profile");
    let mut files: BTreeMap<String, String> = BTreeMap::new();
    files.insert(path.clone(), rules_to_toml(&rules));
    let loaded = rules_from_toml(&files[&path]);

    assert_eq!(loaded.len(), 2);
    assert!(command_matches_rule(
        "cargo test -p rust-codingagent-cli",
        &loaded[0]
    ));
    assert!(!command_matches_rule("cargo run", &loaded[0]));
    assert_eq!(loaded, rules);
    assert_eq!(
        path,
        "/ws/.rust-codingagent/command-approvals-test-profile.toml"
    );
    assert_eq!(sanitize_file_segment("/../"), "default");
    assert_eq!(sanitize_file_segment("a.b_c"), "a-b_c");
}

#[test]
fn allowing_similar_commands_stops_the_questions() {
    let mut rules = vec![];
    let command = "cargo test -p x";
    let ApprovalDecision::Ask { summary, rule } = decide_approval(&rules, command) else {
        panic!("expected a question");
    };
    assert_eq!(summary, "运行 Rust 测试验证项目");
    assert_eq!(rule, "cargo test");
    assert_eq!(
        apply_choice(ApprovalChoice::Deny, &rule, &mut rules),
        (ShellApproval::Denied, false)
    );
    assert_eq!(
        apply_choice(ApprovalChoice::AllowOnce, &rule, &mut rules),
        (ShellApproval::Approved, false)
    );
    assert!(rules.is_empty());
    for _ in 0..2 {
        assert_eq!(
            apply_choice(ApprovalChoice::AlwaysAllowSimilar, &rule, &mut rules),
            (ShellApproval::Approved, true)
        );
    }
    assert_eq!(rules.len(), 1);
    assert_eq!(decide_approval(&rules, command), ApprovalDecision::Approved);
    assert_eq!(decide_approval(&rules, "  cargo test"), ApprovalDecision::Approved);
    assert_ne!(decide_approval(&rules, "cargo run"), ApprovalDecision::Approved);
}

#[test]
fn approval_texts_name_the_command() {
    let menu = render_approval_menu("ls -l", "列出目录中的文件", "ls", ApprovalChoice::Deny);
    assert_eq!(menu.lines().count(), 8);
    assert!(menu.contains("> 拒绝"));
    assert!(menu.contains("  本次允许"));
    let question = render_approval_question("ls -l", "s", "ls");
    assert!(question.contains("ls -l"));
    assert!(question.ends_with("\u{1b}[1;36m选择>\u{1b}[0m "));
}

#[test]
fn truncation_handles_utf8_text() {
    let path = "F:\\大二下\\Rust\\cc-haha-rs\\NKU-Rust-Project";

    assert_eq!(truncate_display(path, 12), "...t-Project");
    assert_eq!(truncate_right("你好，Rust Coding Agent", 8), "你好...");
    assert_eq!(truncate_str("中文历史消息不会panic", 6), "中...");
}

#[test]
fn widths_count_columns() {
    assert_eq!(display_width("你好a"), 5);
    assert_eq!(truncate_str("abc", 3), "abc");
    assert_eq!(truncate_str("abcdef", 3), "...");
    assert_eq!(truncate_str("abcdef", 2), "..");
    assert_eq!(truncate_str("abcdef", 5), "ab...");
    assert_eq!(pad_to_width("你", 5), "你   ");
    assert_eq!(two_column_line("left", "right", 12), "left   right");
    assert_eq!(two_column_line("left", "a longer right side", 12), "left");
    assert_eq!(cut_to_width("abcdef", 5, 6, &vec![1, 1, 1, 1, 1, 1]), "ab...");
    assert_eq!(cut_to_width("abcdef", 5, 6, &vec![3, 1, 1, 1, 1, 1]), "...");
    assert_eq!(cut_start_to_width("abcdef", 5, 6, &vec![1, 1, 1, 1, 1, 2]), "...f");
    assert_eq!(terminal_content_width(Some(200)), 88);
    assert_eq!(terminal_content_width(None), 74);
    assert_eq!(card_width(Some(10)), 64);
}

#[test]
fn exit_command_accepts_common_typos() {
    assert!(is_exit_command("exit"));
    assert!(is_exit_command("exti"));
    assert!(is_exit_command("q"));
    assert!(is_exit_command("退出"));
}

#[test]
fn exit_words_are_trimmed_and_lowered() {
    assert!(is_exit_command("  QUIT \n"));
    assert!(is_exit_command("/退出"));
    assert!(!is_exit_command("exit now"));
    assert!(is_plain_help_request(" 命令 "));
    assert!(!is_plain_help_request("help"));
}

#[test]
fn plain_session_switch_intent_is_handled_without_hijacking_coding_tasks() {
    assert!(is_session_switch_request("我想切换会话"));
    assert!(is_session_switch_request("换会话"));
    assert!(!is_session_switch_request("帮我实现切换会话功能"));
    assert!(!is_session_switch_request("如何开发会话切换代码"));
}

#[test]
fn session_switch_words_and_length() {
    assert!(is_session_switch_request("Switch Session"));
    assert!(is_session_switch_request("换 上 下 文"));
    assert!(!is_session_switch_request("请帮我把当前这个会话切换成新的"));
    assert!(!is_session_switch_request("会话"));
}
