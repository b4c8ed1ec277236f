use std::collections::BTreeMap;

use rust_codingagent::cli::approval::{ApprovalChoice, CommandApprovalRule};
use rust_codingagent::cli::config::{AppConfig, PartialAppConfig};
use rust_codingagent::cli::main_loop::{create_provider, CommandStep, MainLoop, PlanStep};
use rust_codingagent::cli::outline::{
    collect_workspace_outline, is_ignored_outline_entry, sort_entries, OutlineNode,
};
use rust_codingagent::cli::plan::{
    build_plan_request, parse_model_plan, parse_plan_command, pick_plan_part, plan_from_response,
    plan_from_steps_at, plan_path, render_plan_status, steps_from_read, strip_code_fence,
    PlanCommand, PlanError, PlanStepStatus, StepsRead, TomlEntry, TomlField, WorkflowPlan,
    WorkflowStep,
};
use rust_codingagent::cli::intent::LoopAction;
use rust_codingagent::cli::turn::{TurnReply, TurnRun, TurnStep};
use rust_codingagent::message::{Message, MessageRole, ToolCall};
use rust_codingagent::provider::{ProviderConfig, ProviderResponse};
use rust_codingagent::session::{Session, SessionSummary};
use rust_codingagent::store::SessionStore;

fn text(s: &str) -> String {
    s.to_string()
}

fn main_loop() -> MainLoop {
    MainLoop::new(
        Session::new("test", "/ws", ProviderConfig::new("local", "stub"), 3),
        None,
        vec![],
    )
}

#[test]
fn workflow_plan_from_instructions_has_pending_steps() {
    let plan = WorkflowPlan::from_instructions(
        "add plan mode".to_string(),
        vec![
            "Inspect the REPL command handling.".to_string(),
            "Implement generated planning.".to_string(),
            "Run cargo test.".to_string(),
        ],
    )
    .unwrap();

    assert_eq!(plan.goal, "add plan mode");
    assert_eq!(plan.steps.len(), 3);
    assert_eq!(plan.steps[0].index, 1);
    assert_eq!(plan.steps[0].status, PlanStepStatus::Pending);
    assert!(plan.steps[0].instruction.contains("REPL"));
    assert_eq!(plan.next_step_pos(), Some(0));
    assert!(!plan.is_complete());
}

#[test]
fn plans_have_one_to_eight_steps() {
    assert_eq!(
        WorkflowPlan::from_instructions(text("g"), vec![]).unwrap_err(),
        PlanError::NoSteps
    );
    let nine = vec![text("x"); 9];
    let err = WorkflowPlan::from_instructions(text("g"), nine).unwrap_err();
    assert_eq!(err, PlanError::TooManySteps { count: 9 });
    assert_eq!(err.message(), "模型返回了 9 个计划步骤，最多只能有 8 个");
    let plan = WorkflowPlan::from_instructions_at(text("g"), vec![text("x"); 8], 12).unwrap();
    assert_eq!(plan.id, "plan-12");
    assert_eq!(plan.steps[7].index, 8);
}

#[test]
fn parses_model_generated_plan_toml() {
    let raw = r#"
[[steps]]
instruction = "Inspect crates/cli/src/repl.rs and find slash command handling."

[[steps]]
instruction = "Implement model-generated plan creation."

[[steps]]
instruction = "Run cargo fmt and cargo test."
"#;

    let plan = parse_model_plan("add model plan mode", raw).unwrap();

    assert_eq!(plan.goal, "add model plan mode");
    assert_eq!(plan.steps.len(), 3);
    assert_eq!(plan.steps[0].index, 1);
    assert!(plan.steps[1].instruction.contains("model-generated"));
}

#[test]
fn parses_model_generated_plan_inside_code_fence() {
    let raw = r#"```toml
[[steps]]
instruction = "Inspect the project."

[[steps]]
instruction = "Verify the implementation."
```"#;

    let plan = parse_model_plan("fenced output", raw).unwrap();

    assert_eq!(plan.steps.len(), 2);
    assert_eq!(plan.steps[0].instruction, "Inspect the project.");
}

#[test]
fn rejects_model_plan_with_too_few_steps() {
    let raw = r#"
[[steps]]
instruction = "Only one step."
"#;

    let err = parse_model_plan("too short", raw).unwrap_err();
    assert!(err.message().contains("至少需要包含 2 个"));
}

#[test]
fn plan_replies_are_found_in_other_text() {
    let raw = "Here is the plan:\n[[steps]]\ninstruction = \" a \"\n[[steps]]\ninstruction = \"\"\n[[steps]]\ninstruction = \"b\"";
    let plan = parse_model_plan("g", raw).unwrap();
    assert_eq!(plan.steps.len(), 2);
    assert_eq!(plan.steps[0].instruction, "a");
    assert_eq!(parse_model_plan("g", "no plan").unwrap_err(), PlanError::NoToml);
    let PlanError::BadToml { reason } = parse_model_plan("g", "x [[steps]] = ").unwrap_err() else {
        panic!("expected refused TOML");
    };
    assert!(reason.starts_with("TOML parse error at line 1"));
    let unfit = parse_model_plan("g", "see [[steps]]\nname = 1").unwrap_err();
    assert_eq!(unfit, PlanError::BadSteps { text: text("[[steps]]\nname = 1") });
    assert_eq!(unfit.message(), "模型计划不是合法的 TOML");
    assert_eq!(unfit.unfit_text(), Some(text("[[steps]]\nname = 1")));
    assert_eq!(unfit.with_cause("why").message(), "模型计划不是合法的 TOML: why");
    let unfit = parse_model_plan("g", "[[steps]]\ninstruction = 1").unwrap_err();
    assert!(matches!(unfit, PlanError::BadSteps { .. }));
    assert_eq!(PlanError::NoToml.unfit_text(), None);
    assert_eq!(PlanError::NoToml.with_cause("why"), PlanError::NoToml);
    let reply = ProviderResponse::Text { content: text("x [[steps]]") };
    let unfit = plan_from_response("g", reply).unwrap_err();
    assert_eq!(
        unfit,
        PlanError::UnfitReply { content: text("x [[steps]]"), text: text("[[steps]]") }
    );
    assert_eq!(
        unfit.message(),
        "无法解析模型返回的计划：x [[steps]]: 模型计划不是合法的 TOML"
    );
    assert_eq!(
        unfit.with_cause("why").message(),
        "无法解析模型返回的计划：x [[steps]]: 模型计划不是合法的 TOML: why"
    );
    assert_eq!(pick_plan_part("see [[steps]] x ", false).unwrap(), "[[steps]] x");
    assert_eq!(pick_plan_part("```\nall\n```", true).unwrap(), "all");
    assert_eq!(strip_code_fence(" plain "), "plain");
    assert_eq!(strip_code_fence("```toml\na\n```\nb\n```"), "a\n```\nb");
    assert_eq!(strip_code_fence("```"), "");
    assert_eq!(
        plan_from_steps_at(
            "g",
            "",
            StepsRead::Steps { steps: vec![text(" "), text("x"), text("y")] },
            1
        )
        .unwrap()
        .steps[1]
            .instruction,
        "y"
    );
    assert_eq!(
        plan_from_steps_at("g", "t", StepsRead::Refused { reason: text("why") }, 1).unwrap_err(),
        PlanError::BadToml { reason: text("why") }
    );
    assert_eq!(
        plan_from_steps_at("g", "t", StepsRead::Unfit, 1).unwrap_err(),
        PlanError::BadSteps { text: text("t") }
    );
}

#[test]
fn plan_steps_may_be_arrays() {
    let plan = parse_model_plan("g", "steps = [[\"a\"], [\"b\", 1]]").unwrap();
    assert_eq!(plan.steps.len(), 2);
    assert_eq!(plan.steps[1].instruction, "b");
    let plan = parse_model_plan("g", "steps = [[\"a\"], { instruction = \"b\" }]").unwrap();
    assert_eq!(plan.steps[1].instruction, "b");
    assert_eq!(parse_model_plan("g", "steps = [[], [\"b\"]]").unwrap_err(), PlanError::NoToml);
    let entries = |items| Ok(Some(items));
    assert_eq!(
        steps_from_read(entries(vec![
            TomlEntry::List { items: vec![Some(text("a"))] },
            TomlEntry::Table {
                fields: vec![TomlField { key: text("instruction"), text: Some(text("b")) }]
            },
        ])),
        StepsRead::Steps { steps: vec![text("a"), text("b")] }
    );
    for unfit in [
        TomlEntry::Other,
        TomlEntry::List { items: vec![] },
        TomlEntry::List { items: vec![None] },
        TomlEntry::Table { fields: vec![] },
        TomlEntry::Table { fields: vec![TomlField { key: text("instruction"), text: None }] },
    ] {
        assert_eq!(steps_from_read(entries(vec![unfit])), StepsRead::Unfit);
    }
    assert_eq!(steps_from_read(Ok(None)), StepsRead::Unfit);
    assert_eq!(
        steps_from_read(Err(text("why"))),
        StepsRead::Refused { reason: text("why") }
    );
}

#[test]
fn plan_answers_must_be_text() {
    let calls = ProviderResponse::ToolCalls { calls: vec![] };
    assert_eq!(plan_from_response("g", calls).unwrap_err(), PlanError::ToolCalls);
    let bad = ProviderResponse::Text { content: text("hm") };
    let err = plan_from_response("g", bad).unwrap_err();
    assert_eq!(
        err.message(),
        "无法解析模型返回的计划：hm: 模型回复中没有找到 [[steps]] TOML"
    );
}

#[test]
fn plan_requests_offer_no_tools() {
    let state = main_loop();
    let request = build_plan_request(&state.session, "goal", "/ws", "src/");
    assert!(request.tools.is_empty());
    assert_eq!(request.messages.len(), 2);
    assert_eq!(request.messages[0].role, MessageRole::System);
    assert_eq!(
        request.messages[1].content,
        "User task:\ngoal\n\nWorkspace:\n/ws\n\nWorkspace outline:\nsrc/\n\nReturn only TOML following the schema."
    );
}

#[test]
fn plans_run_step_by_step_to_the_end() {
    let mut state = main_loop();
    assert_eq!(
        state.handle_plan_command(PlanCommand::RunAll),
        PlanStep::Print { text: text("当前没有计划。可以用 /计划 <任务> 创建。\n") }
    );
    let plan =
        WorkflowPlan::from_instructions(text("g"), vec![text("one"), text("two")]).unwrap();
    let shown = state.set_plan(plan);
    assert_eq!(
        shown,
        "已创建当前计划。\n计划：g\n  1. [待执行] one\n  2. [待执行] two\n"
    );
    let mut instructions = vec![];
    let mut step = state.handle_plan_command(PlanCommand::RunAll);
    while let PlanStep::Run { pos, instruction, .. } = step {
        assert_eq!(
            state.active_plan.as_ref().unwrap().steps[pos].status,
            PlanStepStatus::Running
        );
        instructions.push(instruction);
        let done = state.finish_plan_step(pos, true);
        assert_eq!(done, format!("[计划] 第 {} 步已完成。\n", pos + 1));
        step = state.go_on_with_plan(true, true);
    }
    assert_eq!(instructions, vec![text("one"), text("two")]);
    assert_eq!(step, PlanStep::Print { text: text("计划已完成。\n") });
    assert!(state.active_plan.as_ref().unwrap().is_complete());
    assert_eq!(
        state.handle_plan_command(PlanCommand::RunNext),
        PlanStep::Print { text: text("没有可执行的计划步骤。\n") }
    );
    assert_eq!(
        state.handle_plan_command(PlanCommand::Clear),
        PlanStep::Forget { text: text("已清除当前计划。\n") }
    );
    assert!(state.active_plan.is_some());
    state.forget_plan();
    assert!(state.active_plan.is_none());
}

#[test]
fn failed_steps_can_be_run_again() {
    let mut state = main_loop();
    let plan =
        WorkflowPlan::from_instructions(text("g"), vec![text("one"), text("two")]).unwrap();
    state.set_plan(plan);
    let PlanStep::Run { pos, all, text: shown, .. } =
        state.handle_plan_command(PlanCommand::RunAll)
    else {
        panic!("expected a step");
    };
    assert!(all);
    assert_eq!(shown, "\n[计划] 正在执行第 1 步：one\n");
    assert_eq!(state.finish_plan_step(pos, false), "");
    assert_eq!(state.go_on_with_plan(all, false), PlanStep::Stop);
    assert_eq!(state.go_on_with_plan(false, true), PlanStep::Stop);
    assert_eq!(state.active_plan.as_ref().unwrap().next_step_pos(), Some(0));
    assert_eq!(
        render_plan_status(&state.active_plan),
        "计划：g\n  1. [失败] one\n  2. [待执行] two\n"
    );
}

#[test]
fn plan_commands_are_recognized() {
    assert_eq!(parse_plan_command(&vec![]), PlanCommand::Status);
    assert_eq!(parse_plan_command(&vec![text("清空")]), PlanCommand::Clear);
    assert_eq!(parse_plan_command(&vec![text("run")]), PlanCommand::RunAll);
    assert_eq!(parse_plan_command(&vec![text("下一步")]), PlanCommand::RunNext);
    assert_eq!(parse_plan_command(&vec![text("help")]), PlanCommand::Help);
    assert_eq!(
        parse_plan_command(&vec![text("add"), text("tests")]),
        PlanCommand::Create { goal: text("add tests") }
    );
    let store = SessionStore::new("/ws", "test/profile");
    assert_eq!(
        plan_path(&store, "test/profile"),
        "/ws/.rust-codingagent/active-plan-test-profile.toml"
    );
}

fn node(path: &str, children: Option<Vec<OutlineNode>>) -> OutlineNode {
    OutlineNode {
        path: text(path),
        is_dir: children.is_some(),
        children: children.unwrap_or_default(),
    }
}

#[test]
fn outlines_are_limited() {
    assert_eq!(collect_workspace_outline(&vec![]), "（工作区为空或无法读取）");
    let deep = node("a/b/c", Some(vec![node("a/b/c/d", None)]));
    let tree = vec![
        node("a", Some(vec![node("a/b", Some(vec![deep]))])),
        node("z.txt", None),
    ];
    assert_eq!(collect_workspace_outline(&tree), "a/\na/b/\na/b/c/\nz.txt");
    let unsorted = vec![node("b", None), node("ab", None), node("a", None), node("é", None)];
    let sorted: Vec<String> = sort_entries(unsorted).into_iter().map(|n| n.path).collect();
    assert_eq!(sorted, vec![text("a"), text("ab"), text("b"), text("é")]);
    let many: Vec<OutlineNode> = (0..100).map(|i| node(&format!("f{i}"), None)).collect();
    assert_eq!(collect_workspace_outline(&many).lines().count(), 80);
    assert!(is_ignored_outline_entry("/ws/target"));
    assert!(is_ignored_outline_entry(".git"));
    assert!(!is_ignored_outline_entry("/ws/src"));
    assert!(!is_ignored_outline_entry(".."));
}

#[test]
fn persists_history_and_switches_model() {
    let mut state = main_loop();
    state.session.add_message(Message::user("hello"));
    let step = state.handle_command("/模型 better-model", 3);
    let CommandStep::SaveSession { text: shown } = step else {
        panic!("expected the session to be saved");
    };
    assert!(shown.contains("模型已切换"));
    assert_eq!(state.session.provider.model, "better-model");
    assert_eq!(state.session.history.len(), 1);
    assert_eq!(state.handle_command("/会话", 3), CommandStep::ShowSessions);
    assert_eq!(
        state.handle_command("/历史", 3),
        CommandStep::Print { text: text("1 用户：hello\n") }
    );
    assert_eq!(
        state.handle_command("/model", 3),
        CommandStep::Print { text: text("当前模型：local/better-model\n") }
    );
}

#[test]
fn commands_have_their_steps() {
    let mut state = main_loop();
    assert_eq!(state.handle_command("/", 3), CommandStep::Nothing);
    assert_eq!(
        state.handle_command("/session resume s-1", 3),
        CommandStep::LoadSession { id: text("s-1") }
    );
    assert_eq!(
        state.handle_command("/会话 切换", 3),
        CommandStep::Complain { text: text("用法：/会话 切换 <会话ID>") }
    );
    assert_eq!(state.handle_command("/sessions", 3), CommandStep::ListSessions);
    assert_eq!(state.handle_command("/回滚", 3), CommandStep::RollbackList);
    assert_eq!(
        state.handle_command("/回滚 文件 r-1 a.txt", 3),
        CommandStep::RollbackFile { id: text("r-1"), path: text("a.txt") }
    );
    assert_eq!(
        state.handle_command("/rollback file r-1", 3),
        CommandStep::Complain { text: text("用法：/回滚 文件 <记录ID> <路径>") }
    );
    assert_eq!(
        state.handle_command("/rollback undo", 3),
        CommandStep::Print {
            text: text("未知回滚子命令：undo\n用法：/回滚 [列表|预览 <记录ID>|恢复 <记录ID>|文件 <记录ID> <路径>]\n")
        }
    );
    assert_eq!(
        state.handle_command("/什么", 3),
        CommandStep::Print { text: text("未知命令：什么\n输入 /帮助 查看可用命令。\n") }
    );
    let CommandStep::Print { text: tools } = state.handle_command("/tools", 3) else {
        panic!("expected a text");
    };
    for name in ["read ", "write ", "edit ", "grep ", "shell ", "read_pdf ", "read_docx "] {
        assert!(tools.contains(name));
    }
    assert_eq!(
        state.handle_command("/审批", 3),
        CommandStep::Print { text: text("没有保存的命令审批规则。\n") }
    );
    state.command_approval_rules = vec![CommandApprovalRule { prefix: text("ls") }];
    assert_eq!(
        state.handle_command("/审批", 3),
        CommandStep::Print {
            text: text("1 条命令审批规则：\n  允许以 `ls` 开头的命令\n使用 /审批 清空 删除全部规则。\n")
        }
    );
    assert_eq!(
        state.handle_command("/审批 清空", 3),
        CommandStep::SaveRules { text: text("已清除命令审批规则。\n") }
    );
    assert!(state.command_approval_rules.is_empty());
    assert_eq!(
        state.handle_command("/计划 下一步", 3),
        CommandStep::Plan { command: PlanCommand::RunNext }
    );
}

#[test]
fn clearing_starts_a_session_in_the_same_place() {
    let mut state = main_loop();
    state.session.add_message(Message::user("hello"));
    let step = state.handle_command_at("/清空", 99, 3);
    assert_eq!(
        step,
        CommandStep::StartSession { text: text("已清除 1 条消息，新会话=s-99-3\n") }
    );
    assert!(state.session.history.is_empty());
    assert_eq!(state.session.workspace, "/ws");
    assert_eq!(state.session.provider.model, "stub");
    state.create_fresh_session(4);
    assert!(state.session.id.ends_with("-4"));
    let other = Session::new("test", "/ws", ProviderConfig::new("p", "m"), 9);
    let id = other.id.clone();
    assert_eq!(
        state.resume_session_by_id(other),
        format!("已切换到会话 {id}（0 条消息，模型=p/m）\n")
    );
    assert_eq!(state.session.id, id);
}

#[test]
fn startup_items_are_limited() {
    let state = main_loop();
    let mut other = SessionSummary::from(&state.session);
    other.id = text("other");
    let sessions = vec![SessionSummary::from(&state.session), other.clone(), other];
    let previews = vec![Some(text("p")), None, None];
    let items = state.startup_session_items(&sessions, &previews, 2);
    assert_eq!(items.len(), 2);
    assert!(items[0].active);
    assert_eq!(items[0].preview, "p");
    assert!(!items[1].active);
    assert_eq!(state.startup_session_items(&sessions, &previews, 20).len(), 3);
    let banner = state.print_banner(60, "/ws", "p", "m");
    assert!(banner.contains("模型  p/m"));
    assert!(banner.contains("会话  新会话"));
}

#[test]
fn providers_need_a_key() {
    let none = PartialAppConfig {
        profile: None,
        workspace: None,
        log_level: None,
        provider_name: None,
        provider_model: None,
        api_base: None,
        api_key: None,
    };
    let mut config = AppConfig::load("/w", None, none);
    assert!(create_provider(&config, None, None).is_none());
    let provider = create_provider(&config, None, Some(text("k2"))).unwrap();
    assert_eq!(provider.authorization(), "Bearer k2");
    assert_eq!(provider.chat_url(), "https://api.deepseek.com/v1/chat/completions");
    let provider = create_provider(&config, Some(text("k1")), Some(text("k2"))).unwrap();
    assert_eq!(provider.authorization(), "Bearer k1");
    config.provider.api_key = Some(text("k0"));
    config.provider.api_base = Some(text("http://x//"));
    let provider = create_provider(&config, Some(text("k1")), None).unwrap();
    assert_eq!(provider.authorization(), "Bearer k0");
    assert_eq!(provider.chat_url(), "http://x/chat/completions");
    assert_eq!(provider.name(), "local");
    assert_eq!(provider.model(), "stub");
}

fn calls(all: &[(&str, &str)]) -> TurnReply {
    let calls = all
        .iter()
        .enumerate()
        .map(|(i, (name, arguments))| ToolCall {
            id: format!("c{i}"),
            name: text(name),
            arguments: text(arguments),
        })
        .collect();
    TurnReply::Answered { response: ProviderResponse::ToolCalls { calls } }
}

fn asked(main: &mut MainLoop, all: &[(&str, &str)]) -> (TurnRun, String, TurnStep) {
    let (mut turn, shown, step) = main.run_agent_turn("do it");
    assert!(shown.contains("思考中"));
    assert_eq!(step, TurnStep::Save);
    assert_eq!(main.advance_turn(&mut turn, TurnReply::Saved).1, TurnStep::Complete);
    let (shown, step) = main.advance_turn(&mut turn, calls(all));
    (turn, shown, step)
}

#[test]
fn turns_ask_before_commands_run() {
    let mut main = main_loop();
    let shell = [("shell", r#"{"command":"cargo test"}"#)];
    let (mut turn, shown, step) = asked(&mut main, &shell);
    assert!(shown.contains("执行命令"));
    assert_eq!(
        step,
        TurnStep::Ask {
            command: text("cargo test"),
            summary: text("运行 Rust 测试验证项目"),
            rule: text("cargo test")
        }
    );
    let deny = TurnReply::Chosen { choice: ApprovalChoice::Deny };
    let (_, step) = main.advance_turn(&mut turn, deny);
    assert_eq!(step, TurnStep::Report { record_needed: false });
    let (shown, step) = main.advance_turn(&mut turn, TurnReply::Latest { id: None });
    assert!(shown.contains("已拒绝"));
    assert_eq!(step, TurnStep::Save);
    assert_eq!(main.session.history.len(), 3);
    assert!(main.command_approval_rules.is_empty());

    let (mut turn, _, _) = asked(&mut main, &shell);
    let always = TurnReply::Chosen { choice: ApprovalChoice::AlwaysAllowSimilar };
    assert_eq!(main.advance_turn(&mut turn, always).1, TurnStep::SaveRules);
    assert_eq!(main.command_approval_rules.len(), 1);
    let lost = TurnReply::RulesLost { reason: text("full") };
    let (shown, step) = main.advance_turn(&mut turn, lost);
    assert_eq!(shown, "警告：保存审批规则失败：full\n");
    let run = TurnStep::Execute { name: text("shell"), arguments: text(shell[0].1) };
    assert_eq!(step, run);

    let (_, _, step) = asked(&mut main, &shell);
    assert_eq!(step, run);
}

#[test]
fn turns_report_tools_and_finish() {
    let mut main = main_loop();
    let all = [("write", r#"{"path":"a","content":"x"}"#), ("shell", "{")];
    let (mut turn, shown, step) = asked(&mut main, &all);
    assert!(shown.contains("写入 a"));
    assert_eq!(step, TurnStep::Execute { name: text("write"), arguments: text(all[0].1) });
    let done = TurnReply::Executed { text: text("File created: a (1 bytes)") };
    let (shown, step) = main.advance_turn(&mut turn, done);
    assert_eq!(shown, "");
    assert_eq!(step, TurnStep::Report { record_needed: true });
    let latest = TurnReply::Latest { id: Some(text("r-1")) };
    let (shown, step) = main.advance_turn(&mut turn, latest);
    assert!(shown.contains("已写入 a"));
    assert!(shown.contains("命令"));
    assert_eq!(step, TurnStep::Report { record_needed: false });
    let (shown, step) = main.advance_turn(&mut turn, TurnReply::Latest { id: None });
    assert!(shown.contains("未执行，参数无法解析"));
    assert_eq!(step, TurnStep::Save);
    assert_eq!(main.advance_turn(&mut turn, TurnReply::Saved).1, TurnStep::Complete);
    assert_eq!(turn.on_wait().contains("思考中"), true);
    assert!(turn.on_token("ok", "1.0").contains("1.0s"));
    let answer = ProviderResponse::Text { content: text("ok") };
    let (_, step) = main.advance_turn(&mut turn, TurnReply::Answered { response: answer });
    assert_eq!(step, TurnStep::Save);
    let (shown, step) = main.advance_turn(&mut turn, TurnReply::Saved);
    assert!(shown.contains("✓ 完成"));
    assert!(shown.contains("工具 2 次"));
    assert_eq!(step, TurnStep::Done);
    assert_eq!(main.session.history.len(), 5);

    let (mut turn, _, _) = main.run_agent_turn("again");
    let failed = TurnReply::Failed { reason: text("disk full") };
    let (shown, step) = main.advance_turn(&mut turn, failed);
    assert!(shown.ends_with('\n'));
    assert_eq!(step, TurnStep::Fail { reason: text("disk full") });
    let (_, step) = main.advance_turn(&mut turn, TurnReply::Saved);
    assert_eq!(step, TurnStep::Fail { reason: text("unexpected reply to an agent step") });
}

#[test]
fn plain_wishes_are_understood() {
    let main = main_loop();
    assert_eq!(main.handle_plain_intent("切换会话"), Some(LoopAction::ShowSessions));
    assert_eq!(main.handle_plain_intent("帮助"), Some(LoopAction::ShowHelp));
    assert_eq!(main.handle_plain_intent("实现切换会话功能"), None);
}

#[test]
fn active_plan_persistence_round_trips() {
    let store = SessionStore::new("/ws", "test/profile");
    let mut plan = WorkflowPlan::from_instructions(
        "persist me".to_string(),
        vec!["First step.".to_string(), "Second step.".to_string()],
    )
    .unwrap();
    plan.steps[0].status = PlanStepStatus::Done;

    let mut files: BTreeMap<String, String> = BTreeMap::new();
    let path = plan_path(&store, "test/profile");
    files.insert(path.clone(), plan_to_toml(&plan));
    let loaded = plan_from_toml(&files[&path]);

    assert_eq!(loaded.id, plan.id);
    assert_eq!(loaded.goal, "persist me");
    assert_eq!(loaded.steps[0].status, PlanStepStatus::Done);
    assert_eq!(loaded, plan);

    files.remove(&path);
    assert!(files.get(&path).is_none());
}

/// The text of a file of a plan whose steps are done or pending.
fn plan_to_toml(plan: &WorkflowPlan) -> String {
    let number = |n: u64| toml::Value::Integer(i64::try_from(n).unwrap());
    let steps = plan
        .steps
        .iter()
        .map(|step| {
            let mut table = toml::Table::new();
            table.insert(text("index"), number(step.index as u64));
            table.insert(text("instruction"), toml::Value::String(step.instruction.clone()));
            table.insert(text("done"), toml::Value::Boolean(step.status == PlanStepStatus::Done));
            toml::Value::Table(table)
        })
        .collect();
    let mut file = toml::Table::new();
    file.insert(text("id"), toml::Value::String(plan.id.clone()));
    file.insert(text("goal"), toml::Value::String(plan.goal.clone()));
    file.insert(text("created_at_ms"), number(plan.created_at_ms));
    file.insert(text("updated_at_ms"), number(plan.updated_at_ms));
    file.insert(text("steps"), toml::Value::Array(steps));
    toml::to_string_pretty(&file).unwrap()
}

/// The plan in the text of a file.
fn plan_from_toml(content: &str) -> WorkflowPlan {
    let file: toml::Table = toml::from_str(content).unwrap();
    let number = |value: &toml::Value| u64::try_from(value.as_integer().unwrap()).unwrap();
    let steps = file["steps"]
        .as_array()
        .unwrap()
        .iter()
        .map(|entry| WorkflowStep {
            index: number(&entry["index"]) as usize,
            instruction: text(entry["instruction"].as_str().unwrap()),
            status: if entry["done"].as_bool().unwrap() {
                PlanStepStatus::Done
            } else {
                PlanStepStatus::Pending
            },
        })
        .collect();
    WorkflowPlan {
        id: text(file["id"].as_str().unwrap()),
        goal: text(file["goal"].as_str().unwrap()),
        steps,
        created_at_ms: number(&file["created_at_ms"]),
        updated_at_ms: number(&file["updated_at_ms"]),
    }
}
