use rust_codingagent::agent::definitions::{build_request, build_tool_definitions};
use rust_codingagent::agent::history::sanitize_messages;
use rust_codingagent::agent::json::{
    extract_object, fix_json_strings, flag_field, natural_field, parse_json_robust, pick_reading,
    size_field, text_field, JsonError, JsonField, JsonScalar,
};
use rust_codingagent::agent::output::{
    describe_fields, explain_read_failure, format_failure, format_file, format_preview,
    format_search, format_tool_output, missing_file_hint, search_file, skips_file,
    tool_description, tool_done_message,
};
use rust_codingagent::agent::prompt::SYSTEM_PROMPT;
use rust_codingagent::agent::request::{
    compile_search, execute_tool_call, extract_write_args_fallback, parse_tool_request,
    plan_from_read, request_from_fields, shell_command_from_call, CallError, ToolPlan,
};
use rust_codingagent::agent::turn::{Agent, AgentReply, AgentStep, ShellApproval};
use rust_codingagent::agent::window::{
    build_messages_with_system, ensure_system_prompt, estimate_tokens,
};
use rust_codingagent::message::{Message, MessageRole, ToolCall};
use rust_codingagent::provider::{ParameterType, ProviderConfig, ProviderResponse};
use rust_codingagent::session::Session;
use rust_codingagent::tools::tool::{GrepMatch, ToolOutput, ToolRequest};

fn text(s: &str) -> String {
    s.to_string()
}

fn session() -> Session {
    Session::new("test", ".", ProviderConfig::new("test", "model"), 1)
}

fn call(id: &str, name: &str, arguments: &str) -> ToolCall {
    ToolCall { id: text(id), name: text(name), arguments: text(arguments) }
}

#[test]
fn context_trimming_does_not_leave_orphan_tool_results() {
    let mut session = session();
    session.add_message(Message::user(&"x".repeat(180_000)));
    session.add_message(Message::assistant_with_tool_calls(
        "",
        vec![ToolCall {
            id: "call_1".to_string(),
            name: "shell".to_string(),
            arguments: format!(r#"{{"command":"{}"}}"#, "x".repeat(27_000)),
        }],
    ));
    session.add_message(Message::tool_result("tool output", "call_1"));
    session.add_message(Message::user(&"y".repeat(144_000)));
    session.add_message(Message::assistant("latest assistant"));
    session.add_message(Message::user("latest user"));

    let messages = build_messages_with_system(&session);

    for (index, message) in messages.iter().enumerate() {
        if message.role == MessageRole::Tool {
            let Some(tool_call_id) = &message.tool_call_id else {
                continue;
            };
            let has_preceding_call = messages[..index].iter().any(|previous| {
                previous.tool_calls.as_ref().map_or(false, |calls| {
                    calls.iter().any(|call| &call.id == tool_call_id)
                })
            });
            assert!(
                has_preceding_call,
                "orphan tool result remained after trimming"
            );
        }
    }
    assert_eq!(messages[0].role, MessageRole::System);
    assert_eq!(messages.last().unwrap().content, "latest user");
}

#[test]
fn short_histories_are_sent_whole() {
    let mut session = session();
    session.add_message(Message::user("hello"));
    let messages = build_messages_with_system(&session);
    assert_eq!(messages.len(), 2);
    assert_eq!(messages[0].content, SYSTEM_PROMPT);
    assert_eq!(messages[1].content, "hello");
    assert_eq!(estimate_tokens("一二三四五"), 1);
    let request = build_request(&session);
    assert_eq!(request.tools.len(), 7);
    assert_eq!(request.context.turn_index, 1);
    assert_eq!(request.messages.len(), 2);
}

#[test]
fn system_prompt_is_put_first_once() {
    let mut session = session();
    session.add_message(Message::user("hello"));
    ensure_system_prompt(&mut session);
    ensure_system_prompt(&mut session);
    assert_eq!(session.history.len(), 2);
    assert_eq!(session.history.messages()[0].content, SYSTEM_PROMPT);
    assert_eq!(session.history.messages()[0].role, MessageRole::System);
}

#[test]
fn sanitizing_keeps_matched_blocks_only() {
    let calls = || {
        Message::assistant_with_tool_calls("", vec![call("1", "read", "{}"), call("2", "read", "{}")])
    };
    let history = vec![
        Message::tool_result("orphan", "9"),
        Message::user("a"),
        calls(),
        Message::tool_result("r2", "2"),
        Message::tool("no id"),
        Message::tool_result("r1", "1"),
        calls(),
        Message::tool_result("r1", "1"),
        Message::user("b"),
        calls(),
    ];
    let clean = sanitize_messages(&history);
    let shown: Vec<&str> = clean.iter().map(|m| m.content.as_str()).collect();
    assert_eq!(shown, vec!["a", "", "r2", "r1", "b"]);
    assert_eq!(sanitize_messages(&clean), clean);
}

#[test]
fn tools_are_defined_with_their_parameters() {
    let tools = build_tool_definitions();
    let names: Vec<&str> = tools.iter().map(|t| t.name.as_str()).collect();
    assert_eq!(
        names,
        vec!["read", "write", "edit", "grep", "shell", "read_pdf", "read_docx"]
    );
    assert_eq!(tools[1].parameters[2].name, "overwrite");
    assert_eq!(tools[1].parameters[2].kind, ParameterType::Flag);
    assert!(!tools[1].parameters[2].required);
    assert!(tools[1].parameters[0].required);
}

#[test]
fn arguments_are_read_robustly() {
    let fields = parse_json_robust("{\"path\": \"a\", \"n\": 3, \"f\": true, \"x\": null}").unwrap();
    assert_eq!(text_field(&fields, "path"), Some(text("a")));
    assert_eq!(natural_field(&fields, "n"), Some(3));
    assert_eq!(size_field(&fields, "n"), Some(3));
    assert_eq!(flag_field(&fields, "f"), Some(true));
    assert_eq!(text_field(&fields, "x"), None);
    assert_eq!(text_field(&fields, "n"), None);
    assert_eq!(natural_field(&fields, "absent"), None);
    assert_eq!(parse_json_robust("  ").unwrap(), vec![]);
    assert_eq!(parse_json_robust("[1]").unwrap(), vec![]);
    let trailing = parse_json_robust("{\"path\": \"x\"} 一些多余的文字").unwrap();
    assert_eq!(text_field(&trailing, "path"), Some(text("x")));
    let raw = parse_json_robust("{\"c\": \"a\nb\tc\"}").unwrap();
    assert_eq!(text_field(&raw, "c"), Some(text("a\nb\tc")));
    assert_eq!(
        parse_json_robust("{bad}").unwrap_err(),
        JsonError::BadObject { part: text("{bad}") }
    );
    assert_eq!(
        parse_json_robust("none").unwrap_err().message(),
        "no valid JSON object found in: none"
    );
    assert_eq!(
        parse_json_robust("{bad} x").unwrap_err().message(),
        "failed to parse extracted JSON: {bad}"
    );
    let negative = parse_json_robust("{\"n\": -1, \"m\": 1.5}").unwrap();
    assert_eq!(natural_field(&negative, "n"), None);
    assert_eq!(natural_field(&negative, "m"), None);
}

#[test]
fn objects_are_found_and_repaired() {
    assert_eq!(extract_object("a {\"x\": \"}\"} b}"), Some(text("{\"x\": \"}\"}")));
    assert_eq!(extract_object("{\"x\": {\"y\": 1}} {}"), Some(text("{\"x\": {\"y\": 1}}")));
    assert_eq!(extract_object("{\"x\": \"\\\"}\""), None);
    assert_eq!(extract_object("none"), None);
    assert_eq!(fix_json_strings("{\"a\":\n\"b\nc\r\td\"}"), "{\"a\":\n\"b\\nc\\r\\td\"}");
    let once = fix_json_strings("\"\\\n\n\"");
    assert_eq!(fix_json_strings(&once), once);
    let field = || vec![JsonField { key: text("k"), value: JsonScalar::Other }];
    assert_eq!(pick_reading("{", Some(field()), None, None).unwrap(), field());
    assert_eq!(pick_reading("{}", None, None, Some(field())).unwrap(), field());
    assert_eq!(pick_reading("", Some(field()), None, None).unwrap(), vec![]);
    assert_eq!(
        pick_reading("{} x", None, None, None).unwrap_err(),
        JsonError::BadObject { part: text("{}") }
    );
}

#[test]
fn calls_become_requests() {
    assert_eq!(
        parse_tool_request("read", "{\"path\":\"a\",\"max_bytes\":5}").unwrap(),
        ToolRequest::Read { path: text("a"), max_bytes: Some(5) }
    );
    assert_eq!(
        parse_tool_request("write", "{\"path\":\"a\",\"content\":\"c\"}").unwrap(),
        ToolRequest::Write { path: text("a"), content: text("c"), overwrite: false }
    );
    assert_eq!(
        parse_tool_request("edit", "{\"path\":\"a\",\"old\":\"o\",\"new\":\"n\"}").unwrap(),
        ToolRequest::Edit { path: text("a"), old: text("o"), new: text("n") }
    );
    assert_eq!(
        parse_tool_request("grep", "{\"pattern\":\"p\",\"path\":\"d\",\"max_matches\":2}").unwrap(),
        ToolRequest::Grep { pattern: text("p"), path: Some(text("d")), max_matches: Some(2) }
    );
    assert_eq!(
        parse_tool_request("shell", "{\"command\":\"ls\",\"timeout_ms\":9}").unwrap(),
        ToolRequest::Shell { command: text("ls"), timeout_ms: Some(9), max_output_bytes: None }
    );
    assert_eq!(
        parse_tool_request("edit", "{\"path\":\"a\"}").unwrap_err().message(),
        "missing or invalid field 'old' in tool call arguments"
    );
    assert_eq!(
        parse_tool_request("fly", "{}").unwrap_err().message(),
        "unknown tool: fly"
    );
    let fields = vec![JsonField { key: text("path"), value: JsonScalar::Text { value: text("p") } }];
    assert_eq!(
        request_from_fields("read", &fields).unwrap(),
        ToolRequest::Read { path: text("p"), max_bytes: None }
    );
    assert_eq!(shell_command_from_call("read", "bad").unwrap(), None);
    assert_eq!(
        shell_command_from_call("shell", "{\"command\":\"ls\"}").unwrap(),
        Some(text("ls"))
    );
    assert!(shell_command_from_call("shell", "bad").is_err());
}

#[test]
fn calls_become_plans() {
    assert_eq!(
        execute_tool_call("read_pdf", "{\"path\":\"a.pdf\"}").unwrap(),
        ToolPlan::ReadPdf { path: text("a.pdf") }
    );
    assert_eq!(
        execute_tool_call("read_docx", "{\"path\":\"a.docx\"}").unwrap(),
        ToolPlan::ReadDocx { path: text("a.docx") }
    );
    assert_eq!(
        execute_tool_call("read", "{\"path\":\"/etc/hosts\",\"max_bytes\":7}").unwrap(),
        ToolPlan::ReadFile { path: text("/etc/hosts"), max_bytes: Some(7) }
    );
    assert_eq!(
        execute_tool_call("grep", "{\"pattern\":\"p\"}").unwrap(),
        ToolPlan::Search { pattern: text("p"), root: text("."), max_matches: 50 }
    );
    let ToolPlan::Reply { text: blocked } =
        execute_tool_call("shell", "{\"command\":\"find / -name x\"}").unwrap()
    else {
        panic!("expected the command to be blocked");
    };
    assert!(blocked.starts_with("⛔ 命令被拦截"));
    assert!(matches!(
        execute_tool_call("shell", "{\"command\":\"find / -maxdepth 1\"}").unwrap(),
        ToolPlan::Run { .. }
    ));
    let shell = |arguments: &str| match execute_tool_call("shell", arguments).unwrap() {
        ToolPlan::Run { request: ToolRequest::Shell { timeout_ms, .. }, .. } => timeout_ms,
        other => panic!("{other:?}"),
    };
    assert_eq!(shell("{\"command\":\"ls\"}"), Some(15_000));
    assert_eq!(shell("{\"command\":\"ls\",\"timeout_ms\":9}"), Some(9));
    assert_eq!(
        execute_tool_call("edit", "{\"path\":\"a\",\"old\":\"o\",\"new\":\"n\"}").unwrap(),
        ToolPlan::Run {
            request: ToolRequest::Edit { path: text("a"), old: text("o"), new: text("n") },
            context: text("tool 'edit' execution failed")
        }
    );
    assert_eq!(
        execute_tool_call("fly", "{}").unwrap_err().message(),
        "failed to parse arguments for tool 'fly': {}: unknown tool: fly"
    );
    assert!(matches!(
        execute_tool_call("read", "bad").unwrap_err(),
        CallError::Arguments { .. }
    ));
    assert!(plan_from_read("read", "", Ok(vec![])).is_err());
    let CallError::InvalidRegex { pattern, reason } = compile_search("(").unwrap_err() else {
        panic!("expected a refused pattern");
    };
    assert_eq!(pattern, "(");
    assert!(reason.contains("unclosed group"));
}

#[test]
fn broken_writes_are_carried_out() {
    let broken = "{\"path\": \"a.txt\", \"content\": \"say \"hi\" {\", \"overwrite\": true}";
    assert_eq!(
        extract_write_args_fallback(broken),
        (text("a.txt"), text("say \"hi\" {"), true)
    );
    assert_eq!(
        extract_write_args_fallback("{\"content\": \"x\"}"),
        (text("unknown.txt"), text("x"), false)
    );
    assert_eq!(
        extract_write_args_fallback("nothing"),
        (text("unknown.txt"), text(""), false)
    );
    let ToolPlan::Run { request, context } = execute_tool_call("write", broken).unwrap() else {
        panic!("expected a write");
    };
    assert_eq!(context, "tool 'write' execution failed");
    assert_eq!(
        request,
        ToolRequest::Write {
            path: text("a.txt"),
            content: text("say \"hi\" {"),
            overwrite: true
        }
    );
}

#[test]
fn tool_output_is_told_to_the_model() {
    assert_eq!(
        format_tool_output(&ToolOutput::Read {
            path: text("p"),
            content: text("c"),
            bytes: 9,
            truncated: true
        }),
        "c\n\n[Note: output was truncated]"
    );
    assert_eq!(
        format_tool_output(&ToolOutput::Write {
            path: text("p"),
            bytes: 9,
            created: true,
            overwritten: false
        }),
        "File created: p (9 bytes)"
    );
    assert_eq!(
        format_tool_output(&ToolOutput::Edit {
            path: text("p"),
            replacements: 1,
            bytes_before: 9,
            bytes_after: 10
        }),
        "File edited: p — 1 replacement(s), 9 → 10 bytes"
    );
    let found = GrepMatch { path: text("a"), line: 2, column: 3, line_text: text("x") };
    assert_eq!(
        format_tool_output(&ToolOutput::Grep { matches: vec![found.clone()], truncated: true }),
        "a:2:3: x\n... (results truncated)"
    );
    assert_eq!(
        format_tool_output(&ToolOutput::Grep { matches: vec![], truncated: false }),
        "No matches found."
    );
    assert_eq!(
        format_tool_output(&ToolOutput::Shell {
            status_code: Some(-1),
            stdout: text("o"),
            stderr: text("e"),
            timed_out: true,
            stdout_truncated: false,
            stderr_truncated: true
        }),
        "Command timed out.\nExit code: -1\nstdout:\no\nstderr:\ne\n[stderr truncated]"
    );
    assert_eq!(
        format_tool_output(&ToolOutput::Shell {
            status_code: None,
            stdout: text(""),
            stderr: text(""),
            timed_out: false,
            stdout_truncated: false,
            stderr_truncated: false
        }),
        "Exit code: none"
    );
    assert_eq!(format_search(&vec![found]), "a:2:3: x");
    assert_eq!(format_search(&vec![]), "No matches found.");
    assert_eq!(
        format_failure("x"),
        "❌ 工具执行失败: x\n请根据错误信息调整后重试。"
    );
}

#[test]
fn files_are_shown_in_part() {
    assert_eq!(format_file("abc", None), "abc");
    assert_eq!(format_file("abc", Some(3)), "abc");
    assert_eq!(format_file("你好", Some(4)), "你...\n\n[truncated at 4 bytes]");
    assert_eq!(format_preview("abc", "PDF"), "abc");
    let long = "é".repeat(1501);
    assert_eq!(
        format_preview(&long, "DOCX"),
        format!("{}...\n\n[DOCX text extracted, 3002 total chars]", "é".repeat(1500))
    );
    assert_eq!(
        missing_file_hint("d/x", "d", Some(vec![text("a"), text("b")])),
        "文件不存在: d/x\n目录 'd' 下的文件: a, b\n用 shell ls 或 find 先确认文件位置。"
    );
    let many: Vec<String> = (0..30).map(|i| i.to_string()).collect();
    assert!(missing_file_hint("x", "", Some(many)).contains("18, 19\n"));
    assert_eq!(
        missing_file_hint("x", "", None),
        "文件不存在: x\n用 shell ls 或 find 先确认文件位置。"
    );
    assert_eq!(explain_read_failure("x", true, text("denied"), "", None), "denied");
    assert_eq!(
        explain_read_failure("x", false, text("gone"), "", None),
        missing_file_hint("x", "", None)
    );
    assert!(skips_file("a/.git/config"));
    assert!(skips_file("./target/debug/x"));
    assert!(!skips_file("src/target.rs"));
    let pattern = compile_search("b+").unwrap();
    let mut results = vec![];
    assert!(search_file("f", "ab\nbb\n", &pattern, 1, &mut results));
    assert_eq!(format_search(&results), "f:1:2: ab");
    assert!(!search_file("g", "bb", &pattern, 5, &mut results));
    assert!(search_file("h", "none here", &pattern, 0, &mut vec![]));
    assert_eq!(results.len(), 2);
}

#[test]
fn tools_are_announced_and_reported() {
    assert_eq!(tool_description("read", "{\"path\":\"a\"}"), "读取 a");
    assert_eq!(tool_description("grep", "{\"pattern\":\"p\"}"), "搜索 \"p\"");
    assert_eq!(tool_description("shell", "broken"), "执行 ?");
    assert_eq!(tool_description("fly", "{}"), "调用 fly");
    assert_eq!(describe_fields("write", &vec![]), "写入 ?");
    assert_eq!(
        tool_done_message("write", "File created: a (1 bytes)", &Some(text("r-1"))),
        "File created: a (1 bytes)  ↩️ /rollback apply r-1"
    );
    assert_eq!(tool_done_message("edit", "x", &None), "x  ↩️ /rollback apply ?");
    assert_eq!(tool_done_message("read", &"a".repeat(100), &None), "a".repeat(100));
    assert_eq!(
        tool_done_message("read", &"a".repeat(101), &None),
        format!("{}...", "a".repeat(100))
    );
}

#[test]
fn turns_end_with_a_text() {
    let mut session = session();
    let (mut agent, step) = Agent::run(&mut session, "hi");
    assert_eq!(step, AgentStep::Save);
    assert_eq!(agent.advance(&mut session, AgentReply::Saved), AgentStep::Complete);
    let answer = ProviderResponse::Text { content: text("hello") };
    let step = agent.advance(&mut session, AgentReply::Answered { response: answer });
    assert_eq!(step, AgentStep::Save);
    assert_eq!(
        agent.advance(&mut session, AgentReply::Saved),
        AgentStep::Done { content: text("hello") }
    );
    assert_eq!(session.history.len(), 2);
    assert_eq!(
        agent.advance(&mut session, AgentReply::Saved),
        AgentStep::Fail { reason: text("unexpected reply to an agent step") }
    );
}

#[test]
fn rounds_are_added_whole() {
    let mut session = session();
    let (mut agent, _) = Agent::run(&mut session, "hi");
    agent.advance(&mut session, AgentReply::Saved);
    let calls = vec![call("1", "read", "{}"), call("2", "grep", "{}")];
    let response = ProviderResponse::ToolCalls { calls };
    let step = agent.advance(&mut session, AgentReply::Answered { response });
    assert_eq!(step, AgentStep::Execute { name: text("read"), arguments: text("{}") });
    assert_eq!(session.history.len(), 1);
    let step = agent.advance(&mut session, AgentReply::Executed { text: text("ok") });
    assert_eq!(step, AgentStep::Execute { name: text("grep"), arguments: text("{}") });
    assert_eq!(session.history.len(), 1);
    let step = agent.advance(&mut session, AgentReply::ToolFailed { reason: text("no") });
    assert_eq!(step, AgentStep::Save);
    assert_eq!(session.history.len(), 4);
    let messages = session.history.messages();
    assert_eq!(messages[2].tool_call_id, Some(text("1")));
    assert_eq!(
        messages[3].content,
        "❌ 工具执行失败: no\n请根据错误信息调整后重试。"
    );
    assert_eq!(sanitize_messages(messages), *messages);
    assert_eq!(agent.advance(&mut session, AgentReply::Saved), AgentStep::Complete);
}

#[test]
fn commands_are_asked_for() {
    let mut session = session();
    let (mut agent, _) = Agent::run_streaming(&mut session, "hi");
    agent.advance(&mut session, AgentReply::Saved);
    let calls = vec![
        call("1", "shell", "{\"command\":\"ls\"}"),
        call("2", "shell", "broken"),
        call("3", "shell", "{\"command\":\"pwd\"}"),
        call("4", "read", "{\"path\":\"a\"}"),
    ];
    let response = ProviderResponse::ToolCalls { calls };
    let step = agent.advance(&mut session, AgentReply::Answered { response });
    assert_eq!(step, AgentStep::Announce { name: text("shell"), description: text("执行 ls") });
    let step = agent.advance(&mut session, AgentReply::Continue);
    assert_eq!(step, AgentStep::Approve { command: text("ls") });
    let denied = AgentReply::Approval { approval: ShellApproval::Denied };
    let AgentStep::Report { result, .. } = agent.advance(&mut session, denied) else {
        panic!("expected a report");
    };
    assert!(result.starts_with("Shell command was denied by the user"));
    let step = agent.advance(&mut session, AgentReply::Continue);
    assert_eq!(step, AgentStep::Announce { name: text("shell"), description: text("执行 ?") });
    let AgentStep::Report { result, .. } = agent.advance(&mut session, AgentReply::Continue) else {
        panic!("expected a report");
    };
    assert!(result.starts_with("Shell command was not executed"));
    agent.advance(&mut session, AgentReply::Continue);
    agent.advance(&mut session, AgentReply::Continue);
    let approved = AgentReply::Approval { approval: ShellApproval::Approved };
    let step = agent.advance(&mut session, approved);
    assert_eq!(
        step,
        AgentStep::Execute { name: text("shell"), arguments: text("{\"command\":\"pwd\"}") }
    );
    let step = agent.advance(&mut session, AgentReply::Executed { text: text("/ws") });
    assert_eq!(step, AgentStep::Report { name: text("shell"), result: text("/ws") });
    agent.advance(&mut session, AgentReply::Continue);
    let step = agent.advance(&mut session, AgentReply::Continue);
    assert_eq!(step, AgentStep::Execute { name: text("read"), arguments: text("{\"path\":\"a\"}") });
}

#[test]
fn rounds_are_limited() {
    let mut session = session();
    let (mut agent, mut step) = Agent::run(&mut session, "hi");
    let mut asked = 0;
    loop {
        step = match step {
            AgentStep::Save => agent.advance(&mut session, AgentReply::Saved),
            AgentStep::Complete => {
                asked += 1;
                let response = ProviderResponse::ToolCalls { calls: vec![] };
                agent.advance(&mut session, AgentReply::Answered { response })
            }
            AgentStep::Fail { reason } => {
                assert!(reason.starts_with("agent exceeded maximum tool-call rounds (50)"));
                break;
            }
            other => panic!("{other:?}"),
        };
    }
    assert_eq!(asked, 50);
}
