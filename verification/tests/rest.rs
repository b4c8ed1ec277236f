use std::collections::BTreeMap;
use std::io::{Cursor, Write};
use std::path::Path;

use rust_codingagent::cli::commands::{
    parse_command, render_history, render_not_found, render_preview, render_records, render_report,
    ReplCommand,
};
use rust_codingagent::cli::intent::input_prompt;
use rust_codingagent::cli::sessions::{
    format_age_at, render_session_item, render_session_list, render_session_overview,
};
use rust_codingagent::cli::startup::StartupSessionItem;
use rust_codingagent::cli::turn_ui::{
    compact_tool_description, compact_tool_done, render_answer_token, tool_display_name,
    TurnUiState,
};
use rust_codingagent::docx::{
    extract_docx_text, parse_docx_xml, text_of_entry, DocxError, DocxText, XmlEvent, ZipEntry,
};
use rust_codingagent::measure::{text_len, truncate_bytes, utf8_width};
use rust_codingagent::message::{ConversationHistory, Message, MessageRole, ToolCall};
use rust_codingagent::number::{parse_usize, render_i32, render_u128, render_usize};
use rust_codingagent::order::stable_order;
use rust_codingagent::path::{
    extension, file_name, is_absolute, join, normalize_path, path_starts_with, split_components,
    strip_base,
};
use rust_codingagent::provider::{ProviderConfig, ProviderRequest, ProviderResponse};
use rust_codingagent::remote::body::{convert_message_to_openai, RemoteProvider};
use rust_codingagent::remote::response::{parse_chat_response, ChatMessage, RemoteError};
use rust_codingagent::remote::stream::{SseCallDelta, SseDelta, SseEvent, SseStream};
use rust_codingagent::rollback::record::{
    FileRollbackPreview, RestoreReport, RestoredFile, RollbackPreview, RollbackRecordSummary,
};
use rust_codingagent::rollback::snapshot::RestoreAction;
use rust_codingagent::session::{Session, SessionSummary};
use rust_codingagent::store::{
    is_session_file, sanitize_path_segment, SessionStore, StoreStep,
};
use rust_codingagent::text;
use zip::write::FileOptions;

fn owned(s: &str) -> String {
    s.to_string()
}

fn archive(name: &str, content: &str) -> Vec<u8> {
    let mut zip = zip::ZipWriter::new(Cursor::new(Vec::new()));
    let options = FileOptions::default().compression_method(zip::CompressionMethod::Deflated);
    zip.start_file("[Content_Types].xml", options).unwrap();
    zip.write_all(b"<Types/>").unwrap();
    zip.start_file(name, options).unwrap();
    zip.write_all(content.as_bytes()).unwrap();
    zip.finish().unwrap().into_inner()
}

/// An archive of one entry that is stored as it is, with its flags and its extra field.
fn stored_archive(name: &str, flags: u8, extra: &[u8], content: &[u8]) -> Vec<u8> {
    let half = |n: usize| u16::try_from(n).unwrap().to_le_bytes();
    let whole = |n: usize| u32::try_from(n).unwrap().to_le_bytes();
    let mut common = vec![20, 0, flags, 0, 0, 0, 0, 0, 0x21, 0, 0, 0, 0, 0];
    common.extend(whole(content.len()));
    common.extend(whole(content.len()));
    common.extend(half(name.len()));

    let mut bytes = b"PK\x03\x04".to_vec();
    bytes.extend(&common);
    bytes.extend(half(0));
    bytes.extend(name.as_bytes());
    bytes.extend(content);
    let start = bytes.len();

    bytes.extend(b"PK\x01\x02\x14\x00");
    bytes.extend(&common);
    bytes.extend(half(extra.len()));
    bytes.extend([0; 14]);
    bytes.extend(name.as_bytes());
    bytes.extend(extra);
    let size = bytes.len() - start;

    bytes.extend(b"PK\x05\x06\0\0\0\0\x01\0\x01\0");
    bytes.extend(whole(size));
    bytes.extend(whole(start));
    bytes.extend(half(0));
    bytes
}

const DOCUMENT: &str = r#"<?xml version="1.0" encoding="UTF-8" standalone="yes"?>
<w:document xmlns:w="http://schemas.openxmlformats.org/wordprocessingml/2006/main">
  <w:body>
    <w:p><w:r><w:t>Hello World</w:t></w:r></w:p>
    <w:p><w:r><w:t>This is a test document.</w:t></w:r></w:p>
    <w:p><w:r><w:t xml:space="preserve">Multiple </w:t><w:t>runs in one paragraph.</w:t></w:r></w:p>
  </w:body>
</w:document>"#;

#[test]
fn extract_text_from_docx() {
    let bytes = archive("word/document.xml", DOCUMENT);
    let text = extract_docx_text("test.docx", &bytes).unwrap();
    assert!(text.contains("Hello World"));
    assert!(text.contains("This is a test document"));
    assert_eq!(
        text,
        "Hello World\nThis is a test document.\nMultiple runs in one paragraph."
    );
}

#[test]
fn word_files_fail_with_a_reason() {
    let error = extract_docx_text("a.docx", b"not a zip").unwrap_err();
    assert!(error.message().starts_with("failed to open DOCX as ZIP: a.docx: "));
    let other = archive("other.xml", "<x/>");
    let error = extract_docx_text("a.docx", &other).unwrap_err();
    assert!(matches!(error, DocxError::NoDocument { .. }));
    assert_eq!(parse_docx_xml("<a></a>").unwrap(), "(no text content found in DOCX)");
    assert_eq!(parse_docx_xml("<p><t>a &amp; b</t></p>").unwrap(), "a & b");
    assert_eq!(parse_docx_xml("<t>kept</t></p>").unwrap(), "kept");
    assert!(matches!(parse_docx_xml("<t>x</t><!-- "), Err(DocxError::Xml { .. })));
    let locked = "DOCX missing word/document.xml — not a valid .docx file?: \
        unsupported Zip archive: Password required to decrypt file";
    let aes = [0x01, 0x99, 7, 0, 2, 0, b'A', b'E', 3, 0, 0];
    for (flags, extra) in [(0u8, &aes[..]), (1, &aes[..]), (1, &[][..])] {
        let bytes = stored_archive("word/document.xml", flags, extra, &[7; 40]);
        assert_eq!(extract_docx_text("a.docx", &bytes).unwrap_err().message(), locked);
    }
    assert_eq!(text_of_entry("p", ZipEntry::Locked).unwrap_err().message(), locked);
    let entry = ZipEntry::Unreadable { reason: owned("r") };
    assert_eq!(
        text_of_entry("p", entry).unwrap_err().message(),
        "failed to read word/document.xml: r"
    );
    let mut doc = DocxText::new();
    doc.take_event(&XmlEvent::Text { text: Some(owned("outside")) });
    doc.take_event(&XmlEvent::Start { name: b"t".to_vec() });
    doc.take_event(&XmlEvent::Text { text: Some(owned("inside")) });
    doc.take_event(&XmlEvent::Text { text: None });
    doc.take_event(&XmlEvent::Start { name: b"p".to_vec() });
    doc.take_event(&XmlEvent::Mismatch);
    doc.take_event(&XmlEvent::Text { text: Some(owned("next")) });
    doc.take_event(&XmlEvent::End { name: b"t".to_vec() });
    doc.take_event(&XmlEvent::Text { text: Some(owned("outside")) });
    assert_eq!(doc.finish(), "inside\nnext");
}

#[test]
fn white_space_is_that_of_unicode() {
    for n in 0..=0x10FFFFu32 {
        if let Some(c) = char::from_u32(n) {
            assert_eq!(text::is_whitespace(c), c.is_whitespace(), "{n:x}");
        }
    }
}

#[test]
fn texts_are_cut_like_strings() {
    for s in ["", " ", "a", "  a b \t", "a\n", "a\r\nb\n", "a\rb\r", "\n\n", "x\r", "\u{3000}é "] {
        assert_eq!(text::trim(s), s.trim());
        assert_eq!(text::trim_left(s), s.trim_start());
        assert_eq!(text::split_lines(s), s.lines().map(owned).collect::<Vec<_>>());
        assert_eq!(text::split_words(s), s.split_whitespace().map(owned).collect::<Vec<_>>());
        assert_eq!(text_len(s), s.len());
        assert_eq!(text::to_lower(s), s.to_ascii_lowercase());
    }
    assert_eq!(text::search("aXbX", "X"), Some(1));
    assert_eq!(text::search("éX", "X"), Some(1));
    assert_eq!(text::search("a", ""), Some(0));
    assert_eq!(text::search("", "a"), None);
    assert_eq!(text::count_occurrences("aaaa", "aa"), 2);
    assert_eq!(text::replace_once("aXbX", "X", "--"), "a--bX");
    assert_eq!(text::split_once("a=b=c", "="), Some((owned("a"), owned("b=c"))));
    assert_eq!(text::strip_prefix("/a", "/"), Some(owned("a")));
    assert_eq!(text::strip_prefix("a", "/"), None);
    assert!(text::ends_with("abc", "bc"));
    assert!(!text::ends_with("c", "bc"));
    assert_eq!(text::join(&vec![owned("a"), owned("b")], ", "), "a, b");
    assert_eq!(text::repeat("ab", 3), "ababab");
    assert_eq!(text::remove_spaces(" a b\t"), "ab");
    assert_eq!(text::to_lower("ÀAZ"), "Àaz");
    assert_eq!(truncate_bytes("aé漢😀", 9), "aé漢");
    assert_eq!(truncate_bytes("aé漢😀", 10), "aé漢😀");
    for c in ['a', 'é', '漢', '😀'] {
        assert_eq!(utf8_width(c), c.len_utf8());
    }
}

#[test]
fn numbers_are_written_in_decimal() {
    for n in [0, 7, 10, 99, 100, u64::MAX as u128, u128::MAX] {
        assert_eq!(render_u128(n), n.to_string());
    }
    for n in [0, -1, 42, i32::MIN, i32::MAX] {
        assert_eq!(render_i32(n), n.to_string());
    }
    assert_eq!(render_usize(1200), "1200");
    let max = usize::MAX.to_string();
    let over = format!("{max}0");
    for s in ["", "0", "+7", "-1", "+", "12a", "007", " 1", max.as_str(), over.as_str()] {
        assert_eq!(parse_usize(s), s.parse::<usize>().ok(), "{s}");
    }
    assert_eq!(stable_order(&vec![1, 3, 2, 3], true), vec![1, 3, 2, 0]);
    assert_eq!(stable_order(&vec![1, 3, 2, 3], false), vec![0, 2, 1, 3]);
}

#[test]
fn paths_follow_the_standard_library() {
    let all = ["", "/", "a", "/a/b.txt", "./a", "a/..", "a//b/", ".hidden", "a.tar.gz", "a/.", ".."];
    for p in all {
        let path = Path::new(p);
        assert_eq!(file_name(p), path.file_name().map(|n| n.to_string_lossy().to_string()), "{p}");
        assert_eq!(extension(p), path.extension().map(|n| n.to_string_lossy().to_string()), "{p}");
        assert_eq!(is_absolute(p), path.is_absolute());
        let parts: Vec<String> =
            path.components().map(|c| c.as_os_str().to_string_lossy().to_string()).collect();
        assert_eq!(split_components(p), parts, "{p}");
        for q in all {
            assert_eq!(join(p, q), path.join(q).display().to_string());
            assert_eq!(path_starts_with(p, q), path.starts_with(q), "{p} {q}");
        }
    }
    assert_eq!(normalize_path("/a/./b/../c//d/"), "/a/c/d");
    assert_eq!(normalize_path("/../x"), "/x");
    assert_eq!(normalize_path("a/../../b"), "b");
    assert_eq!(normalize_path("."), "");
    assert_eq!(normalize_path(&normalize_path("/a/../b")), normalize_path("/a/../b"));
    assert_eq!(strip_base("/ws/a/b", "/ws"), "a/b");
    assert_eq!(strip_base("/other", "/ws"), "/other");
    assert_eq!(strip_base("/wsx", "/ws"), "/wsx");
}

fn number(n: u64) -> toml::Value {
    toml::Value::Integer(i64::try_from(n).unwrap())
}

/// The text of a file of a session without tool calls.
fn session_to_toml(session: &Session) -> String {
    let messages = session
        .history
        .messages()
        .iter()
        .map(|message| {
            assert_eq!(message.role, MessageRole::User);
            let mut table = toml::Table::new();
            table.insert(owned("content"), toml::Value::String(message.content.clone()));
            table.insert(owned("created_at_ms"), number(message.created_at_ms));
            toml::Value::Table(table)
        })
        .collect();
    let mut file = toml::Table::new();
    for (key, value) in [
        ("id", &session.id),
        ("profile", &session.profile),
        ("workspace", &session.workspace),
        ("name", &session.provider.name),
        ("model", &session.provider.model),
    ] {
        file.insert(owned(key), toml::Value::String(value.clone()));
    }
    file.insert(owned("created_at_ms"), number(session.created_at_ms));
    file.insert(owned("updated_at_ms"), number(session.updated_at_ms));
    file.insert(owned("messages"), toml::Value::Array(messages));
    toml::to_string_pretty(&file).unwrap()
}

/// The session in the text of a file.
fn session_from_toml(content: &str) -> Session {
    let file: toml::Table = toml::from_str(content).unwrap();
    let text_at = |key: &str| owned(file[key].as_str().unwrap());
    let time_at = |value: &toml::Value| u64::try_from(value.as_integer().unwrap()).unwrap();
    let messages = file["messages"]
        .as_array()
        .unwrap()
        .iter()
        .map(|entry| {
            let content = entry["content"].as_str().unwrap();
            Message::plain_at(MessageRole::User, content, time_at(&entry["created_at_ms"]))
        })
        .collect();
    Session {
        id: text_at("id"),
        profile: text_at("profile"),
        workspace: text_at("workspace"),
        provider: ProviderConfig::new(&text_at("name"), &text_at("model")),
        history: ConversationHistory::from_messages(messages),
        created_at_ms: time_at(&file["created_at_ms"]),
        updated_at_ms: time_at(&file["updated_at_ms"]),
    }
}

#[test]
fn saves_and_restores_active_session() {
    let store = SessionStore::new("/ws", "test profile");
    let provider = ProviderConfig::new("local", "stub");
    let (mut session, steps) =
        store.get_or_create_active_session(None, "test profile", "/ws", provider, 42);
    assert_eq!(
        steps,
        vec![
            StoreStep::SaveSession {
                directory: owned("/ws/.rust-codingagent/sessions/test_profile"),
                file: format!("/ws/.rust-codingagent/sessions/test_profile/{}.toml", session.id),
            },
            StoreStep::SetActive {
                directory: owned("/ws/.rust-codingagent"),
                file: owned("/ws/.rust-codingagent/active-test_profile.toml"),
                session_id: session.id.clone(),
            },
        ]
    );
    session.add_message(Message::user("hello"));

    let mut files: BTreeMap<String, String> = BTreeMap::new();
    for step in steps {
        match step {
            StoreStep::SetActive { file, session_id, .. } => files.insert(file, session_id),
            StoreStep::SaveSession { file, .. } => files.insert(file, session_to_toml(&session)),
        };
    }
    let id = files[store.active_file()].clone();
    let saved = Some(session_from_toml(&files[&store.session_path(&id)]));
    let other = ProviderConfig::new("other", "other");
    let (restored, steps) =
        store.get_or_create_active_session(saved, "test profile", "/ws", other, 43);
    assert!(steps.is_empty());
    assert_eq!(restored.id, session.id);
    assert_eq!(restored.history.len(), 1);
    assert_eq!(restored.context().turn_index, 1);
    assert_eq!(restored, session);
}

#[test]
fn sessions_have_files_of_their_own() {
    let store = SessionStore::new("/ws", "default");
    assert_ne!(store.session_path("s-1-2"), store.session_path("s-1-3"));
    assert_ne!(store.session_path("active-default"), store.active_file());
    let (session, steps) =
        store.create_session("default", "/ws", ProviderConfig::new("local", "one"), 7);
    assert!(matches!(
        &steps[..],
        [
            StoreStep::SaveSession { file, .. },
            StoreStep::SetActive { session_id, .. },
        ] if *file == store.session_path(session_id) && *session_id == session.id
    ));
}

fn summary(id: &str, at: u64) -> SessionSummary {
    let session = Session::new_at("default", "/ws", ProviderConfig::new("local", "one"), at, 1);
    let mut summary = SessionSummary::from(&session);
    summary.id = owned(id);
    summary
}

#[test]
fn lists_sessions_newest_first() {
    let first = summary("first", 5);
    let second = summary("second", 9);
    let third = summary("third", 5);
    let store = SessionStore::new("/ws", "default");
    let sessions = store.list_sessions(&vec![first, second, third]);
    let ids: Vec<&str> = sessions.iter().map(|s| s.id.as_str()).collect();
    assert_eq!(ids, vec!["second", "first", "third"]);
    assert!(is_session_file("/ws/a.toml"));
    assert!(!is_session_file("/ws/a.txt"));
    assert!(!is_session_file("/ws/.toml"));
    assert_eq!(sanitize_path_segment("a b/ä.x"), "a_b__.x");
    assert_eq!(sanitize_path_segment(""), "default");
    assert_eq!(
        sanitize_path_segment(&sanitize_path_segment("x/y")),
        sanitize_path_segment("x/y")
    );
}

#[test]
fn sessions_are_made_and_changed() {
    let provider = ProviderConfig::new("p", "m").with_api_base(Some(owned("b")));
    assert_eq!(provider.api_base, Some(owned("b")));
    let mut session = Session::new_at("prof", "/ws", provider, 12, 34);
    assert_eq!(session.id, "s-12-34");
    assert_eq!(session.created_at_ms, 12);
    session.set_model("m2");
    assert_eq!(session.provider.model, "m2");
    assert!(session.updated_at_ms > 12);
    session.set_provider(ProviderConfig::new("q", "n"));
    let context = session.context();
    assert_eq!(context.provider, "q");
    assert_eq!(context.model, "n");
    assert_eq!(context.workspace, "/ws");
    let message = Message::tool("x");
    assert_eq!(message.role, MessageRole::Tool);
    assert!(message.created_at_ms > 1_600_000_000_000);
}

fn delta(content: Option<&str>) -> SseDelta {
    SseDelta { content: content.map(owned), tool_calls: vec![] }
}

fn part(index: u32, id: Option<&str>, name: Option<&str>, arguments: Option<&str>) -> SseCallDelta {
    SseCallDelta {
        index,
        id: id.map(owned),
        name: name.map(owned),
        arguments: arguments.map(owned),
    }
}

#[test]
fn events_are_split_from_any_pieces() {
    let whole = ": note\r\ndata: {\"a\":1}\r\n\ndata:x\n data: 你 \ndata: [DONE]\nrest";
    for cut in 0..=whole.len() {
        if !whole.is_char_boundary(cut) {
            continue;
        }
        let mut stream = SseStream::new();
        let mut events = vec![];
        for piece in [&whole[..cut], &whole[cut..]] {
            stream.feed(piece.as_bytes());
            while let Some(event) = stream.next_event() {
                events.push(event);
            }
        }
        assert_eq!(
            events,
            vec![
                SseEvent::Data { payload: owned("{\"a\":1}") },
                SseEvent::Data { payload: owned("你") },
                SseEvent::Done,
            ]
        );
    }
    let mut stream = SseStream::new();
    stream.feed(b"data: \xff\n");
    assert_eq!(stream.next_event(), Some(SseEvent::Data { payload: owned("\u{fffd}") }));
    stream.feed_text("data: a");
    assert_eq!(stream.next_event(), None);
}

#[test]
fn streams_become_replies() {
    let mut stream = SseStream::new();
    assert_eq!(stream.finish().unwrap_err(), RemoteError::EmptyStream);
    let tokens = stream.apply(&vec![delta(Some("he")), delta(None), delta(Some("llo"))]);
    assert_eq!(tokens.concat(), "hello");
    assert_eq!(stream.finish().unwrap(), ProviderResponse::Text { content: owned("hello") });
    let mut calls = delta(None);
    calls.tool_calls = vec![
        part(1, Some("b"), Some("grep"), None),
        part(0, Some("a"), Some("re"), Some("{\"p\"")),
        part(0, None, Some("read"), Some(":1}")),
        part(3, Some("lost"), None, Some("x")),
    ];
    stream.apply(&vec![calls]);
    assert_eq!(
        stream.finish().unwrap(),
        ProviderResponse::ToolCalls {
            calls: vec![
                ToolCall { id: owned("a"), name: owned("read"), arguments: owned("{\"p\":1}") },
                ToolCall { id: owned("b"), name: owned("grep"), arguments: owned("{}") },
            ]
        }
    );
}

#[test]
fn replies_are_understood() {
    assert_eq!(
        parse_chat_response(&vec![]).unwrap_err().message(),
        "LLM returned empty choices array"
    );
    let text = ChatMessage { content: None, tool_calls: Some(vec![]) };
    assert_eq!(
        parse_chat_response(&vec![text]).unwrap(),
        ProviderResponse::Text { content: owned("") }
    );
    let call = ToolCall { id: owned("1"), name: owned("read"), arguments: owned("") };
    let calls = ChatMessage { content: Some(owned("x")), tool_calls: Some(vec![call]) };
    let ProviderResponse::ToolCalls { calls } = parse_chat_response(&vec![calls]).unwrap() else {
        panic!("expected tool calls");
    };
    assert_eq!(calls[0].arguments, "{}");
    let error = RemoteError::Http { status: 401, body: owned("no") };
    assert_eq!(error.message(), "LLM provider returned HTTP 401: no");
}

#[test]
fn requests_are_written_for_the_api() {
    let plain = convert_message_to_openai(&Message::tool_result("out", "c1"));
    assert_eq!(plain.role, "tool");
    assert_eq!(plain.content, Some(owned("out")));
    assert_eq!(plain.tool_call_id, Some(owned("c1")));
    let call = ToolCall { id: owned("1"), name: owned("read"), arguments: owned("{}") };
    let empty = Message::assistant_with_tool_calls("", vec![call.clone()]);
    let converted = convert_message_to_openai(&empty);
    assert_eq!(converted.content, None);
    assert_eq!(converted.tool_calls, Some(vec![call]));
    let provider = RemoteProvider::new("p", "m", "http://x/", "SECRET-REDACTED");
    let session = Session::new("t", "/w", ProviderConfig::new("p", "m"), 1);
    let request = ProviderRequest {
        context: session.context(),
        messages: vec![Message::system("s")],
        tools: vec![],
    };
    let body = provider.build_request_body(request, true);
    assert_eq!(body.model, "m");
    assert_eq!(body.messages[0].role, "system");
    assert!(body.tools.is_none());
    assert!(body.stream);
    assert_eq!(body.max_tokens, 4096);
    assert_eq!(provider.chat_url(), "http://x/chat/completions");
    assert_eq!(provider.authorization(), "Bearer SECRET-REDACTED");
}

#[test]
fn answers_get_a_border() {
    let border = "\u{1b}[2;37m│\u{1b}[0m \u{1b}[1;37m";
    let (shown, start) = render_answer_token("a\n\nb", true);
    assert_eq!(shown, format!("{border}a\n\n{border}b"));
    assert!(!start);
    let (first, middle) = render_answer_token("a\n", true);
    let (second, end) = render_answer_token("\nb", middle);
    assert_eq!(format!("{first}{second}"), shown);
    assert_eq!(end, start);
}

#[test]
fn turns_are_shown() {
    let mut ui = TurnUiState::default();
    let loading = ui.tick_loading_line();
    assert!(loading.starts_with("\r\u{1b}[K"));
    assert!(loading.contains("◐ 思考中"));
    assert!(ui.tick_loading_line().contains("◓"));
    let tool = ui.on_tool("read", "读取 a");
    assert!(tool.starts_with("\r\u{1b}[K"));
    assert!(tool.contains("读取 a"));
    assert_eq!(ui.tick_loading_line(), "");
    let done = ui.on_tool_done("read", "x");
    assert!(done.contains("✓ 读取"));
    assert!(done.contains("已读取"));
    assert!(done.ends_with('\n'));
    let token = ui.on_token("hi", "0.8");
    assert!(token.contains("回答"));
    assert!(token.contains("0.8s"));
    assert!(!ui.on_token("!", "0.9").contains("回答"));
    let end = ui.finish(true);
    assert!(end.contains("✓ 完成"));
    assert!(end.contains("工具 1 次"));
    assert!(end.contains("可用 /回滚"));
    assert_eq!(TurnUiState::default().finish(true), "\n");
    assert_eq!(TurnUiState::default().finish(false), "\n");
    assert_eq!(tool_display_name("fly"), "工具");
}

#[test]
fn the_prompt_is_coloured() {
    assert_eq!(
        input_prompt(),
        "\n\u{1b}[2;37m╰─\u{1b}[0m \u{1b}[1;36m你>\u{1b}[0m "
    );
}

#[test]
fn results_are_shortened() {
    assert_eq!(compact_tool_done("write", "File created: a.txt (3 bytes)"), "已写入 a.txt");
    assert_eq!(compact_tool_done("edit", "nothing"), "已编辑");
    assert_eq!(compact_tool_done("grep", "No matches found."), "没有匹配结果");
    assert_eq!(compact_tool_done("grep", "a:1"), "已完成搜索");
    assert_eq!(compact_tool_done("shell", "Exit code: 0\nstdout"), "已完成");
    assert_eq!(compact_tool_done("shell", "Exit code: 2\nstderr"), "退出码 2");
    assert_eq!(
        compact_tool_done("shell", "Shell command was denied by the user. x"),
        "已拒绝"
    );
    assert_eq!(
        compact_tool_done("shell", "Shell command was not executed because: x"),
        "未执行，参数无法解析"
    );
    assert_eq!(compact_tool_done("fly", "short"), "short");
    assert_eq!(compact_tool_description("shell", "执行 ls"), "执行命令");
    assert_eq!(compact_tool_description("read", "读取 a"), "读取 a");
    assert_eq!(compact_tool_description("fly", "x"), "调用工具");
}

fn item(id: &str, active: bool) -> StartupSessionItem {
    StartupSessionItem {
        id: owned(id),
        message_count: 2,
        model: owned("m"),
        updated_at_ms: 0,
        preview: owned("a\nb"),
        active,
    }
}

#[test]
fn sessions_are_listed() {
    let minute = 60_000;
    assert_eq!(format_age_at(5, 4), "刚刚");
    assert_eq!(format_age_at(0, 59_999), "刚刚");
    assert_eq!(format_age_at(0, minute), "1 分钟前");
    assert_eq!(format_age_at(0, 60 * minute), "1 小时前");
    assert_eq!(format_age_at(0, 24 * 60 * minute), "1 天前");
    assert_eq!(format_age_at(0, 31 * 24 * 60 * minute), "较早");
    let shown = render_session_item(3, &item("s-1", false), minute);
    assert!(shown.contains("3.   "));
    assert!(shown.contains("2 条消息 · m · 1 分钟前"));
    assert!(shown.contains("a b"));
    assert!(render_session_item(3, &item("s-1", true), 0).contains("当前 "));
    assert_eq!(render_session_list(&vec![], 0), "没有已保存的会话。\n");
    let list = render_session_list(&vec![item("s-1", true), item("s-2", false)], 0);
    assert!(list.contains("共 2 个"));
    assert!(list.contains("s-2"));
    let session = Session::new_at("t", "/ws", ProviderConfig::new("p", "m"), 0, 1);
    let alone = render_session_overview(&session, &vec![item("s-0-1", true)], 0);
    assert!(alone.contains("没有其他可切换会话。"));
    let others: Vec<StartupSessionItem> =
        (0..9).map(|i| item(&format!("other-{i}"), false)).collect();
    let overview = render_session_overview(&session, &others, 0);
    assert!(overview.contains("other-5"));
    assert!(!overview.contains("other-6"));
}

#[test]
fn commands_are_parsed() {
    assert_eq!(parse_command("help"), ReplCommand::Help);
    assert_eq!(parse_command("/"), ReplCommand::Nothing);
    assert_eq!(parse_command("/model a b"), ReplCommand::SetModel { model: owned("a") });
    assert_eq!(
        parse_command("/plan add tests"),
        ReplCommand::Plan { args: vec![owned("add"), owned("tests")] }
    );
    assert_eq!(parse_command("//help"), ReplCommand::Unknown { name: owned("/help") });
    assert_eq!(
        parse_command("/rollback preview"),
        ReplCommand::Usage { text: owned("用法：/回滚 预览 <记录ID>") }
    );
    assert_eq!(parse_command("/回滚 恢复 r"), ReplCommand::RollbackApply { id: owned("r") });
}

#[test]
fn histories_and_records_are_shown() {
    assert_eq!(render_history(&vec![]), "历史消息为空。\n");
    let call = ToolCall { id: owned("1"), name: owned("read"), arguments: owned("{}") };
    let mut messages: Vec<Message> = (0..50).map(|i| Message::user(&i.to_string())).collect();
    messages.push(Message::assistant_with_tool_calls("", vec![call]));
    messages.push(Message::tool_result("out", "1"));
    let shown = render_history(&messages);
    assert!(shown.starts_with("共有 52 条消息，下面显示最近 50 条。\n3 用户：2\n"));
    assert!(shown.ends_with("51 助手： [工具调用：read]\n52 工具：out [工具调用ID：1]\n"));
    assert_eq!(render_records(&vec![]), "没有回滚记录。\n");
    let record = RollbackRecordSummary {
        id: owned("r-1"),
        session_id: owned("s"),
        turn_index: 4,
        tool_name: owned("edit"),
        changed_files: vec![owned("a"), owned("b")],
        created_at_ms: 1,
    };
    assert_eq!(
        render_records(&vec![record]),
        "1 条回滚记录：\n  r-1  轮次=4  工具=edit  文件=[a, b]\n"
    );
    let preview = RollbackPreview {
        record_id: owned("r-1"),
        files: vec![
            FileRollbackPreview {
                path: owned("a"),
                action: RestoreAction::RestorePreviousContent,
                diff: owned("-x\n+y\n"),
            },
            FileRollbackPreview {
                path: owned("b"),
                action: RestoreAction::NoChange,
                diff: owned("(no changes)\n"),
            },
        ],
    };
    assert_eq!(
        render_preview(&preview),
        "回滚预览 r-1：\n  a  动作=RestorePreviousContent\n    -x\n    +y\n  b  动作=NoChange\n"
    );
    let report = RestoreReport {
        record_id: owned("r-1"),
        files: vec![RestoredFile { path: owned("a"), action: RestoreAction::DeleteCreatedFile }],
    };
    assert_eq!(render_report(&report, false), "已应用回滚 r-1：\n  a → DeleteCreatedFile\n");
    assert_eq!(
        render_report(&report, true),
        "已将回滚 r-1 应用到指定文件：\n  a → DeleteCreatedFile\n"
    );
    assert_eq!(
        render_not_found("x", "gone", &vec![]),
        "找不到会话：x（gone）\n没有已保存的会话。\n"
    );
    assert_eq!(
        render_not_found("x", "gone", &vec![summary("s", 7)]),
        "找不到会话：x（gone）\n可用会话：\n  s  消息=0  更新时间=7\n"
    );
}
