use std::collections::BTreeMap;

use rust_codingagent::context::AgentContext;
use rust_codingagent::path::{join, normalize_path, path_starts_with};
use rust_codingagent::rollback::manager::{
    run_tool_with_rollback, RollbackManager, RollbackRun, RunReply, RunStep,
};
use rust_codingagent::rollback::record::{
    is_safe_record_id, sort_records, RecordedToolOutput, RestoreReport, RollbackPreview,
    RollbackRecord, RollbackRecordSummary,
};
use rust_codingagent::rollback::restore::{PreviewStep, RestoreReply, RestoreStep};
use rust_codingagent::rollback::snapshot::{
    render_diff, restore_action, FileChangeKind, FileSnapshot, RestoreAction, RollbackError,
};
use rust_codingagent::tools::edit::EditTool;
use rust_codingagent::tools::grep::{GrepTool, Pattern};
use rust_codingagent::tools::read::ReadTool;
use rust_codingagent::tools::registry::{run_tool, ToolRegistry, ToolReply, ToolStep};
use rust_codingagent::tools::shell::{ShellTool, DEFAULT_TIMEOUT_MS};
use rust_codingagent::tools::tool::{
    truncate_to_bytes, FileState, GrepMatch, ToolError, ToolOutput, ToolRequest,
};
use rust_codingagent::tools::write::WriteTool;

fn text(s: &str) -> String {
    s.to_string()
}

fn context() -> AgentContext {
    AgentContext {
        session_id: text("test-session"),
        profile: text("test"),
        workspace: text("/ws"),
        provider: text("local"),
        model: text("stub"),
        turn_index: 7,
    }
}

/// Files in memory; every prefix of a file's path is a directory, and so is the workspace.
#[derive(Default)]
struct Disk {
    files: BTreeMap<String, String>,
    records: BTreeMap<String, RollbackRecord>,
    files_read: usize,
}

impl Disk {
    fn with(files: &[(&str, &str)]) -> Disk {
        let mut disk = Disk::default();
        for (path, content) in files {
            disk.files.insert(text(path), text(content));
        }
        disk
    }

    fn is_dir(&self, path: &str) -> bool {
        path == "/" || path == "/ws" || self.files.keys().any(|f| f.starts_with(&format!("{path}/")))
    }

    fn is_there(&self, path: &str) -> bool {
        self.files.contains_key(path) || self.is_dir(path)
    }

    fn state(&self, path: &str) -> FileState {
        match self.files.get(path) {
            Some(content) => FileState::Text { content: content.clone() },
            None if self.is_dir(path) => FileState::Directory,
            None => FileState::Missing,
        }
    }

    fn reply(&mut self, step: ToolStep) -> ToolReply {
        match step {
            ToolStep::Resolve { path } => {
                let path = normalize_path(&path);
                if self.is_there(&path) {
                    ToolReply::Resolved { path }
                } else {
                    ToolReply::Failed { reason: text("not found") }
                }
            }
            ToolStep::FindExisting { candidates } => {
                match candidates.iter().position(|c| self.is_there(c)) {
                    Some(index) => ToolReply::Found { index },
                    None => ToolReply::NotFound,
                }
            }
            ToolStep::Inspect { path } => ToolReply::Inspected { state: self.state(&path) },
            ToolStep::WriteFile { path, content, .. } => {
                self.files.insert(path, content);
                ToolReply::Written
            }
            ToolStep::NextFile { target } => {
                let next = self
                    .files
                    .iter()
                    .filter(|(path, _)| path_starts_with(path, &target))
                    .nth(self.files_read);
                self.files_read += 1;
                match next {
                    Some((path, content)) => ToolReply::FileRead {
                        path: path.clone(),
                        content: Some(content.clone()),
                    },
                    None => ToolReply::NoMoreFiles,
                }
            }
            ToolStep::Execute { command, .. } => ToolReply::Executed {
                status_code: Some(0),
                stdout: command.into_bytes(),
                stderr: vec![],
                timed_out: false,
            },
            other => panic!("{other:?}"),
        }
    }

    fn run(&mut self, request: ToolRequest) -> Result<ToolOutput, ToolError> {
        self.files_read = 0;
        let (mut run, mut step) = run_tool(&context(), request);
        loop {
            match step {
                ToolStep::Done { output } => return Ok(output),
                ToolStep::Fail { error } => return Err(error),
                other => {
                    let reply = self.reply(other);
                    step = run.advance(reply);
                }
            }
        }
    }

    fn drive(
        &mut self,
        manager: &RollbackManager,
        mut run: RollbackRun,
        mut step: RunStep,
        request: ToolRequest,
    ) -> Result<RecordedToolOutput, RollbackError> {
        loop {
            let reply = match step {
                RunStep::Done { recorded } => return Ok(recorded),
                RunStep::Fail { error } => return Err(error),
                RunStep::RunTool => match self.run(request.clone()) {
                    Ok(output) => RunReply::ToolDone { output },
                    Err(error) => RunReply::Failed { reason: error.message() },
                },
                RunStep::Resolve { path } => {
                    if self.is_there(&path) {
                        RunReply::Resolved { path }
                    } else {
                        RunReply::Missing
                    }
                }
                RunStep::Inspect { path } => RunReply::Inspected { state: self.state(&path) },
                RunStep::CheckRecord { file, .. } => {
                    if self.records.contains_key(&file) {
                        RunReply::Taken
                    } else {
                        RunReply::Free
                    }
                }
                RunStep::SaveRecord { file, record } => {
                    self.records.insert(file, record);
                    RunReply::Saved
                }
            };
            (run, step) = manager.advance(run, reply);
        }
    }

    fn recorded(
        &mut self,
        manager: &RollbackManager,
        request: ToolRequest,
    ) -> Result<RecordedToolOutput, RollbackError> {
        let (run, step) = manager.run_tool(request.clone());
        self.drive(manager, run, step, request)
    }

    fn preview(
        &self,
        manager: &RollbackManager,
        record: &RollbackRecord,
    ) -> Result<RollbackPreview, RollbackError> {
        let (mut run, mut step) = manager.preview(record);
        loop {
            match step {
                PreviewStep::Inspect { path } => {
                    (run, step) = manager.advance_preview(run, self.state(&path));
                }
                PreviewStep::Done { preview } => return Ok(preview),
                PreviewStep::Fail { error } => return Err(error),
            }
        }
    }

    fn restore(
        &mut self,
        manager: &RollbackManager,
        record: &RollbackRecord,
        only: Option<&str>,
    ) -> Result<RestoreReport, RollbackError> {
        let (mut run, mut step) = match only {
            Some(path) => manager.restore_file(record, path)?,
            None => manager.restore(record),
        };
        loop {
            let reply = match step {
                RestoreStep::Inspect { path } => {
                    RestoreReply::Inspected { state: self.state(&path) }
                }
                RestoreStep::WriteFile { path, content } => {
                    self.files.insert(path, content);
                    RestoreReply::Carried
                }
                RestoreStep::DeleteFile { path } => {
                    self.files.remove(&path);
                    RestoreReply::Carried
                }
                RestoreStep::Done { report } => return Ok(report),
                RestoreStep::Fail { error } => return Err(error),
            };
            (run, step) = manager.advance_restore(run, reply);
        }
    }
}

fn write(path: &str, content: &str, overwrite: bool) -> ToolRequest {
    ToolRequest::Write { path: text(path), content: text(content), overwrite }
}

fn edit(path: &str, old: &str, new: &str) -> ToolRequest {
    ToolRequest::Edit { path: text(path), old: text(old), new: text(new) }
}

fn read(path: &str) -> ToolRequest {
    ToolRequest::Read { path: text(path), max_bytes: None }
}

#[test]
fn read_write_and_edit_roundtrip() {
    let mut disk = Disk::default();
    let write_output = disk.run(write("notes/example.txt", "hello tools\n", false)).unwrap();
    assert!(matches!(
        write_output,
        ToolOutput::Write { created: true, overwritten: false, .. }
    ));

    let read_output = disk.run(read("notes/example.txt")).unwrap();
    assert!(matches!(
        read_output,
        ToolOutput::Read { content, .. } if content == "hello tools\n"
    ));

    let edit_output = disk.run(edit("notes/example.txt", "hello", "hi")).unwrap();
    assert!(matches!(edit_output, ToolOutput::Edit { replacements: 1, .. }));

    assert_eq!(disk.files["/ws/notes/example.txt"], "hi tools\n");
}

#[test]
fn write_refuses_overwrite_unless_requested() {
    let mut disk = Disk::default();
    disk.run(write("file.txt", "first", false)).unwrap();

    let result = disk.run(write("file.txt", "second", false));
    assert!(result.is_err());
    assert_eq!(
        result.unwrap_err().message(),
        "refusing to overwrite existing file /ws/file.txt"
    );
    assert_eq!(disk.files["/ws/file.txt"], "first");

    let result = disk.run(write("file.txt", "second", true)).unwrap();
    assert!(matches!(
        result,
        ToolOutput::Write { created: false, overwritten: true, .. }
    ));
    assert_eq!(disk.files["/ws/file.txt"], "second");
}

#[test]
fn edit_requires_a_unique_match() {
    let mut disk = Disk::with(&[("/ws/file.txt", "same same")]);
    let result = disk.run(edit("file.txt", "same", "changed"));

    assert!(result.is_err());
    assert_eq!(
        result.unwrap_err(),
        ToolError::OldTextRepeated { path: text("/ws/file.txt"), count: 2 }
    );
    assert_eq!(
        disk.run(edit("file.txt", "none", "x")).unwrap_err(),
        ToolError::OldTextNotFound { path: text("/ws/file.txt") }
    );
    assert_eq!(disk.run(edit("file.txt", "", "x")).unwrap_err(), ToolError::EmptyOldText);
}

#[test]
fn read_rejects_paths_outside_workspace() {
    let mut disk = Disk::with(&[("/secret.txt", "secret"), ("/ws/in.txt", "x")]);
    let result = disk.run(read("../secret.txt"));

    assert!(result.is_err());
    assert_eq!(
        result.unwrap_err().message(),
        "path /secret.txt is outside workspace /ws"
    );
    assert!(disk.run(read("/ws/./sub/../in.txt")).is_ok());
    assert_eq!(
        disk.run(write("../x.txt", "", false)).unwrap_err(),
        ToolError::OutsideWorkspace { path: text("/x.txt"), root: text("/ws") }
    );
    assert!(disk.run(write("/etc/x", "", false)).is_err());
}

#[test]
fn grep_returns_matching_lines() {
    let mut disk = Disk::with(&[
        ("/ws/a.rs", "fn main() {}\nlet session = 1;\n"),
        ("/ws/b.txt", "no match\n"),
    ]);
    let output = disk
        .run(ToolRequest::Grep {
            pattern: text("session"),
            path: None,
            max_matches: Some(10),
        })
        .unwrap();

    let ToolOutput::Grep { matches, truncated } = output else {
        panic!("expected grep output");
    };
    assert!(!truncated);
    assert_eq!(matches.len(), 1);
    assert_eq!(matches[0].path, "a.rs");
    assert_eq!(matches[0].line, 2);
    assert_eq!(matches[0].column, 5);
}

#[test]
fn grep_stops_at_its_limit() {
    let mut disk = Disk::with(&[("/ws/a", "x1\ny\nx2\nx3"), ("/ws/b", "x4")]);
    let grep = |pattern: &str, limit| ToolRequest::Grep {
        pattern: text(pattern),
        path: None,
        max_matches: limit,
    };
    let ToolOutput::Grep { matches, truncated } = disk.run(grep("x[0-9]", Some(2))).unwrap() else {
        panic!("expected grep output");
    };
    assert!(truncated);
    assert_eq!(matches.len(), 2);
    assert_eq!(matches[1].line_text, "x2");
    assert_eq!(matches[1].line, 3);
    let ToolOutput::Grep { matches, truncated } = disk.run(grep("x", None)).unwrap() else {
        panic!("expected grep output");
    };
    assert!(!truncated);
    assert_eq!(matches.len(), 4);
    assert_eq!(
        disk.run(grep("x", Some(0))).unwrap(),
        ToolOutput::Grep { matches: vec![], truncated: true }
    );
    let ToolError::InvalidRegex { pattern, .. } = disk.run(grep("(", None)).unwrap_err() else {
        panic!("expected a refused pattern");
    };
    assert_eq!(pattern, "(");
    let pattern = Pattern::new("界").unwrap();
    assert_eq!(pattern.first_match("世界"), Some(3));
    assert_eq!(pattern.first_match("world"), None);
    let mut none: Vec<GrepMatch> = vec![];
    assert!(!GrepTool.search_content("f", "no", &pattern, Some(1), &mut none));
    let lines = vec![text("a"), text("b"), text("c")];
    let mut found: Vec<GrepMatch> = vec![];
    assert!(GrepTool.take_matches(
        "f",
        &lines,
        &vec![None, Some(0), Some(4)],
        Some(1),
        &mut found
    ));
    assert_eq!(
        found,
        vec![GrepMatch { path: text("f"), line: 2, column: 1, line_text: text("b") }]
    );
}

#[test]
fn searching_asks_for_one_file_after_another() {
    let request = |limit| ToolRequest::Grep {
        pattern: text("x+"),
        path: None,
        max_matches: limit,
    };
    let file = |path: &str, content: Option<&str>| ToolReply::FileRead {
        path: text(path),
        content: content.map(text),
    };
    let ask = || ToolStep::NextFile { target: text("/ws") };
    let (mut run, _) = run_tool(&context(), request(Some(3)));
    assert_eq!(run.advance(ToolReply::Resolved { path: text("/ws") }), ask());
    assert_eq!(run.advance(file("/ws/a", Some("x\nyx"))), ask());
    assert_eq!(run.advance(file("/ws/b", None)), ask());
    let found = |path: &str, line, column, line_text: &str| GrepMatch {
        path: text(path),
        line,
        column,
        line_text: text(line_text),
    };
    assert_eq!(
        run.advance(file("/ws/d/c", Some("xx\nx"))),
        ToolStep::Done {
            output: ToolOutput::Grep {
                matches: vec![
                    found("a", 1, 1, "x"),
                    found("a", 2, 2, "yx"),
                    found("d/c", 1, 1, "xx")
                ],
                truncated: true
            }
        }
    );
    let (mut run, _) = run_tool(&context(), request(None));
    run.advance(ToolReply::Resolved { path: text("/ws") });
    run.advance(file("/ws/a", Some("x")));
    assert_eq!(
        run.advance(ToolReply::NoMoreFiles),
        ToolStep::Done {
            output: ToolOutput::Grep { matches: vec![found("a", 1, 1, "x")], truncated: false }
        }
    );
    let (mut run, _) = run_tool(&context(), request(None));
    run.advance(ToolReply::Resolved { path: text("/ws") });
    let ToolStep::Fail { error } = run.advance(ToolReply::Failed { reason: text("denied") }) else {
        panic!("expected a failure");
    };
    assert_eq!(error.message(), "failed while walking grep target /ws: denied");
}

#[test]
fn shell_output_is_cut_and_commands_checked() {
    let mut disk = Disk::default();
    let shell = |command: &str, limit| ToolRequest::Shell {
        command: text(command),
        timeout_ms: None,
        max_output_bytes: limit,
    };
    assert_eq!(disk.run(shell(" \t", None)).unwrap_err(), ToolError::EmptyCommand);
    let ToolOutput::Shell { stdout, stdout_truncated, .. } =
        disk.run(shell("你好吗", Some(7))).unwrap()
    else {
        panic!("expected shell output");
    };
    assert!(stdout_truncated);
    assert_eq!(stdout, "你好");
    let (mut run, _) = ToolRegistry::new().run(&context(), shell("ls", None));
    let step = run.advance(ToolReply::Resolved { path: text("/ws") });
    assert_eq!(
        step,
        ToolStep::Execute {
            directory: text("/ws"),
            command: text("ls"),
            timeout_ms: DEFAULT_TIMEOUT_MS
        }
    );
    assert_eq!(DEFAULT_TIMEOUT_MS, 30_000);
    let ended = |reply| {
        let (mut run, _) = run_tool(&context(), shell("ls", None));
        run.advance(ToolReply::Resolved { path: text("/ws") });
        run.advance(reply)
    };
    assert_eq!(
        ended(ToolReply::Executed {
            status_code: Some(1),
            stdout: vec![b'a', 0xff],
            stderr: vec![b'e'],
            timed_out: true
        }),
        ToolStep::Done {
            output: ToolOutput::Shell {
                status_code: Some(1),
                stdout: text("a\u{fffd}"),
                stderr: text("e"),
                timed_out: true,
                stdout_truncated: false,
                stderr_truncated: false
            }
        }
    );
    let failure = |reply| match ended(reply) {
        ToolStep::Fail { error } => error.message(),
        other => panic!("{other:?}"),
    };
    let reason = || text("why");
    assert_eq!(
        failure(ToolReply::Failed { reason: reason() }),
        "failed to start shell command: ls: why"
    );
    assert_eq!(
        failure(ToolReply::CollectFailed { reason: reason() }),
        "failed to collect shell command output: ls: why"
    );
    assert_eq!(failure(ToolReply::WaitFailed { reason: reason() }), "why");
}

#[test]
fn tool_failures_have_their_texts() {
    let mut disk = Disk::with(&[("/ws/d/f", "x")]);
    assert_eq!(
        disk.run(read("missing")).unwrap_err().message(),
        "failed to resolve path /ws/missing: not found"
    );
    assert_eq!(disk.run(read("d")).unwrap_err().message(), "read target is not a file: /ws/d");
    assert_eq!(
        disk.run(edit("d", "a", "b")).unwrap_err().message(),
        "edit target is not a file: /ws/d"
    );
    assert_eq!(
        disk.run(write("d", "a", true)).unwrap_err().message(),
        "write target is a directory: /ws/d"
    );
    assert_eq!(
        disk.run(write("/", "a", true)).unwrap_err().message(),
        "path / is outside workspace /ws"
    );
    let (mut run, _) = run_tool(&context(), read("a"));
    assert_eq!(
        run.advance(ToolReply::Failed { reason: text("gone") }),
        ToolStep::Fail {
            error: ToolError::ResolveWorkspace { path: text("/ws"), reason: text("gone") }
        }
    );
    assert_eq!(
        run.advance(ToolReply::Written),
        ToolStep::Fail { error: ToolError::UnexpectedReply }
    );
    let (mut run, _) = run_tool(&context(), write("a/b", "x", false));
    let step = run.advance(ToolReply::Resolved { path: text("/ws") });
    assert_eq!(
        step,
        ToolStep::FindExisting { candidates: vec![text("/ws/a"), text("/ws"), text("/")] }
    );
    assert_eq!(
        run.advance(ToolReply::NotFound),
        ToolStep::Fail { error: ToolError::NoExistingParent { path: text("/ws/a") } }
    );
    let (mut run, _) = run_tool(&context(), write("a/b", "x", false));
    run.advance(ToolReply::Resolved { path: text("/ws") });
    run.advance(ToolReply::Found { index: 1 });
    assert_eq!(
        run.advance(ToolReply::Resolved { path: text("/elsewhere") }),
        ToolStep::Fail {
            error: ToolError::OutsideWorkspace { path: text("/elsewhere"), root: text("/ws") }
        }
    );
    let writing = |reply| {
        let (mut run, _) = run_tool(&context(), write("a/b", "x", false));
        run.advance(ToolReply::Resolved { path: text("/ws") });
        run.advance(ToolReply::Found { index: 1 });
        run.advance(ToolReply::Resolved { path: text("/ws") });
        run.advance(ToolReply::Inspected { state: FileState::Missing });
        match run.advance(reply) {
            ToolStep::Fail { error } => error.message(),
            other => panic!("{other:?}"),
        }
    };
    assert_eq!(
        writing(ToolReply::ParentFailed { reason: text("full") }),
        "failed to create directory /ws/a: full"
    );
    assert_eq!(
        writing(ToolReply::Failed { reason: text("full") }),
        "failed to write file /ws/a/b: full"
    );
    let unreadable = FileState::Unreadable { reason: text("not text") };
    assert_eq!(
        ReadTool.finish("/ws/f", unreadable, None).unwrap_err().message(),
        "failed to read file /ws/f: not text"
    );
    assert_eq!(ReadTool.name(), "read");
    assert_eq!(WriteTool.name(), "write");
    assert_eq!(EditTool.name(), "edit");
    assert_eq!(GrepTool.name(), "grep");
    assert_eq!(ShellTool.name(), "shell");
}

#[test]
fn byte_limits_keep_whole_characters() {
    assert_eq!(truncate_to_bytes(text("añb"), Some(2)), (text("a"), true));
    assert_eq!(truncate_to_bytes(text("añb"), Some(3)), (text("añ"), true));
    assert_eq!(truncate_to_bytes(text("añb"), Some(4)), (text("añb"), false));
    assert_eq!(truncate_to_bytes(text("añb"), None), (text("añb"), false));
    assert_eq!(truncate_to_bytes(text("ñ"), Some(0)), (text(""), true));
}

#[test]
fn write_record_can_delete_created_file() {
    let mut disk = Disk::default();
    let manager = RollbackManager::new(context(), "/ws");

    let result = disk
        .recorded(&manager, write("notes/new.txt", "created\n", false))
        .unwrap();

    let record = result.record.expect("write should create rollback record");
    assert_eq!(record.tool_name, "write");
    assert_eq!(record.changed_files[0].kind, FileChangeKind::Created);
    assert!(disk.files.contains_key("/ws/notes/new.txt"));

    let preview = disk.preview(&manager, &record).unwrap();
    assert_eq!(preview.files[0].action, RestoreAction::DeleteCreatedFile);

    let report = disk.restore(&manager, &record, None).unwrap();
    assert_eq!(report.files[0].action, RestoreAction::DeleteCreatedFile);
    assert!(!disk.files.contains_key("/ws/notes/new.txt"));

    let again = disk.restore(&manager, &record, None).unwrap();
    assert_eq!(again.files[0].action, RestoreAction::NothingToRestore);
}

#[test]
fn edit_record_can_restore_previous_content() {
    let mut disk = Disk::with(&[("/ws/file.txt", "alpha\nbeta\n")]);
    let request = edit("file.txt", "beta", "gamma");
    let (manager, run, step) = run_tool_with_rollback(&context(), "/ws", request.clone());
    let result = disk.drive(&manager, run, step, request).unwrap();

    let record = result.record.expect("edit should create rollback record");
    assert_eq!(record.changed_files[0].kind, FileChangeKind::Modified);
    assert!(record.diffs[0].diff.contains("-beta"));
    assert!(record.diffs[0].diff.contains("+gamma"));
    assert_eq!(disk.files["/ws/file.txt"], "alpha\ngamma\n");
    assert_eq!(
        record.diffs[0].diff,
        "--- file.txt (before)\n+++ file.txt (after)\n alpha\n-beta\n+gamma\n"
    );

    let preview = disk.preview(&manager, &record).unwrap();
    assert_eq!(
        preview.files[0].action,
        RestoreAction::RestorePreviousContent
    );
    assert!(preview.files[0].diff.contains("+beta"));

    disk.restore(&manager, &record, None).unwrap();
    assert_eq!(disk.files["/ws/file.txt"], "alpha\nbeta\n");
    let again = disk.restore(&manager, &record, None).unwrap();
    assert_eq!(again.files[0].action, RestoreAction::NoChange);
}

#[test]
fn restore_file_only_restores_requested_file() {
    let mut disk = Disk::with(&[("/ws/a.txt", "old-a"), ("/ws/b.txt", "old-b")]);
    let manager = RollbackManager::new(context(), "/ws");

    let first = disk
        .recorded(&manager, edit("a.txt", "old", "new"))
        .unwrap()
        .record
        .unwrap();
    disk.recorded(&manager, edit("b.txt", "old", "new")).unwrap();

    disk.restore(&manager, &first, Some("/ws/a.txt")).unwrap();
    assert_eq!(disk.files["/ws/a.txt"], "old-a");
    assert_eq!(disk.files["/ws/b.txt"], "new-b");
    assert_eq!(disk.records.len(), 2);
    let error = disk.restore(&manager, &first, Some("/ws/b.txt")).unwrap_err();
    assert_eq!(
        error.message(),
        format!("file b.txt is not part of rollback record {}", first.id)
    );
}

#[test]
fn read_tool_does_not_create_rollback_record() {
    let mut disk = Disk::with(&[("/ws/file.txt", "hello")]);
    let manager = RollbackManager::new(context(), "/ws");
    let result = disk.recorded(&manager, read("file.txt")).unwrap();

    assert!(result.record.is_none());
    assert!(disk.records.is_empty());
}

#[test]
fn records_name_what_changed() {
    let mut disk = Disk::with(&[("/ws/a.txt", "x")]);
    let manager = RollbackManager::new(context(), "/ws");
    assert_eq!(manager.record_dir(), "/ws/.rust-codingagent/rollback/test/test-session");
    let same = disk.recorded(&manager, write("a.txt", "x", true)).unwrap();
    assert!(same.record.is_none());
    let (run, step) = manager.run_tool(write("a.txt", "yy", true));
    assert_eq!(step, RunStep::Resolve { path: text("/ws/a.txt") });
    let (run, step) = manager.advance_at(run, RunReply::Resolved { path: text("/ws/a.txt") }, 50);
    assert_eq!(step, RunStep::Inspect { path: text("/ws/a.txt") });
    let before = RunReply::Inspected { state: FileState::Text { content: text("x") } };
    let (run, step) = manager.advance_at(run, before, 50);
    assert_eq!(step, RunStep::RunTool);
    let output = ToolOutput::Write {
        path: text("/ws/a.txt"),
        bytes: 2,
        created: false,
        overwritten: true,
    };
    let (run, _) = manager.advance_at(run, RunReply::ToolDone { output }, 50);
    let (run, step) = manager.advance_at(run, RunReply::Resolved { path: text("/ws/a.txt") }, 50);
    assert_eq!(step, RunStep::Inspect { path: text("/ws/a.txt") });
    let after = RunReply::Inspected { state: FileState::Text { content: text("yy") } };
    let (run, step) = manager.advance_at(run, after, 50);
    assert_eq!(
        step,
        RunStep::CheckRecord {
            directory: text(manager.record_dir()),
            file: join(manager.record_dir(), "r-7-50.toml")
        }
    );
    let (run, _) = manager.advance_at(run, RunReply::Taken, 60);
    let (_, step) = manager.advance_at(run, RunReply::Free, 70);
    let RunStep::SaveRecord { file, record } = step else {
        panic!("expected the record to be saved");
    };
    assert_eq!(file, join(manager.record_dir(), "r-7-50-1.toml"));
    assert_eq!(record.id, "r-7-50-1");
    assert_eq!(record.created_at_ms, 50);
    assert_eq!(record.changed_files[0].bytes_before, Some(1));
    assert_eq!(record.changed_files[0].bytes_after, Some(2));
    let summary = record.summary();
    assert_eq!(summary.changed_files, vec![text("a.txt")]);
    assert_eq!(summary.tool_name, "write");
    assert_eq!(summary.turn_index, 7);
}

#[test]
fn record_ids_run_out() {
    let manager = RollbackManager::new(context(), "/ws");
    let (mut run, _) = manager.run_tool(write("a.txt", "y", true));
    let missing = || RunReply::Inspected { state: FileState::Missing };
    (run, _) = manager.advance_at(run, RunReply::Missing, 1);
    (run, _) = manager.advance_at(run, missing(), 1);
    let output = ToolOutput::Write {
        path: text("a.txt"),
        bytes: 1,
        created: true,
        overwritten: false,
    };
    (run, _) = manager.advance_at(run, RunReply::ToolDone { output }, 1);
    (run, _) = manager.advance_at(run, RunReply::Missing, 1);
    let there = RunReply::Inspected { state: FileState::Text { content: text("y") } };
    let mut step;
    (run, step) = manager.advance_at(run, there, 1);
    let mut asked = 0;
    while let RunStep::CheckRecord { .. } = step {
        asked += 1;
        (run, step) = manager.advance_at(run, RunReply::Taken, 1);
    }
    assert_eq!(asked, 1000);
    assert_eq!(step, RunStep::Fail { error: RollbackError::NoRecordId });
}

#[test]
fn failed_records_have_their_texts() {
    let manager = RollbackManager::new(context(), "/ws");
    let asked = || {
        let (mut run, _) = manager.run_tool(write("a.txt", "y", true));
        (run, _) = manager.advance_at(run, RunReply::Missing, 1);
        let missing = RunReply::Inspected { state: FileState::Missing };
        (run, _) = manager.advance_at(run, missing, 1);
        let output = ToolOutput::Write {
            path: text("a.txt"),
            bytes: 1,
            created: true,
            overwritten: false,
        };
        (run, _) = manager.advance_at(run, RunReply::ToolDone { output }, 1);
        (run, _) = manager.advance_at(run, RunReply::Missing, 1);
        let there = RunReply::Inspected { state: FileState::Text { content: text("y") } };
        manager.advance_at(run, there, 1).0
    };
    let message = |step| match step {
        RunStep::Fail { error } => error.message(),
        other => panic!("{other:?}"),
    };
    let failed = || RunReply::Failed { reason: text("full") };
    let (_, step) = manager.advance_at(asked(), failed(), 1);
    assert_eq!(
        message(step),
        "failed to create /ws/.rust-codingagent/rollback/test/test-session: full"
    );
    let (run, _) = manager.advance_at(asked(), RunReply::Free, 1);
    let (_, step) = manager.advance_at(run, failed(), 1);
    assert_eq!(message(step), "failed to write rollback record r-7-1: full");
    let (run, _) = manager.advance_at(asked(), RunReply::Free, 1);
    let (_, step) = manager.advance_at(run, RunReply::Unserializable { reason: text("odd") }, 1);
    assert_eq!(message(step), "failed to serialize rollback record: odd");
    let (run, _) = manager.run_tool(write("a.txt", "y", true));
    let (_, step) = manager.advance_at(run, failed(), 1);
    assert_eq!(message(step), "failed to resolve /ws/a.txt: full");
}

#[test]
fn failed_restores_have_their_texts() {
    let manager = RollbackManager::new(context(), "/ws");
    let record = |content: Option<&str>| RollbackRecord {
        id: text("r-1"),
        session_id: text("s"),
        profile: text("p"),
        turn_index: 0,
        workspace: text("/ws"),
        tool_name: text("write"),
        changed_files: vec![],
        before_snapshot: vec![FileSnapshot {
            path: text("d/f"),
            existed: content.is_some(),
            content: content.map(text),
        }],
        after_snapshot: vec![],
        diffs: vec![],
        created_at_ms: 1,
    };
    let failure = |content: Option<&str>, reply| {
        let (run, _) = manager.restore(&record(content));
        let state = FileState::Text { content: text("now") };
        let (run, _) = manager.advance_restore(run, RestoreReply::Inspected { state });
        match manager.advance_restore(run, reply).1 {
            RestoreStep::Fail { error } => error.message(),
            other => panic!("{other:?}"),
        }
    };
    let reason = || text("why");
    assert_eq!(
        failure(Some("old"), RestoreReply::ParentFailed { reason: reason() }),
        "failed to create directory /ws/d: why"
    );
    assert_eq!(
        failure(Some("old"), RestoreReply::Failed { reason: reason() }),
        "failed to restore /ws/d/f: why"
    );
    assert_eq!(
        failure(None, RestoreReply::Failed { reason: reason() }),
        "failed to delete /ws/d/f: why"
    );
    assert_eq!(
        manager.restore_file(&record(None), "/ws/other").unwrap_err().message(),
        "file other is not part of rollback record r-1"
    );
}

#[test]
fn rollback_paths_stay_inside() {
    let manager = RollbackManager::new(context(), "/ws");
    assert_eq!(manager.candidate_for("../x").unwrap_err().message(), "path /x is outside workspace /ws");
    assert_eq!(manager.relative_for("/ws/a/b").unwrap(), "a/b");
    assert_eq!(manager.relative_for("/ws").unwrap_err(), RollbackError::WorkspaceRoot);
    assert_eq!(manager.absolute_for_relative("a/b").unwrap(), "/ws/a/b");
    assert_eq!(
        manager.absolute_for_relative("/a").unwrap_err().message(),
        "rollback record path must be relative: /a"
    );
    assert!(manager.absolute_for_relative("../a").is_err());
    assert!(manager.record_path("r-1-2").is_ok());
    assert_eq!(
        manager.record_path("../x").unwrap_err().message(),
        "invalid rollback record id: ../x"
    );
    assert!(!is_safe_record_id(""));
    assert!(!is_safe_record_id("."));
    assert!(!is_safe_record_id(".."));
    assert!(is_safe_record_id("a.b"));
}

fn snapshot(content: Option<&str>) -> FileSnapshot {
    FileSnapshot {
        path: text("f"),
        existed: content.is_some(),
        content: content.map(text),
    }
}

#[test]
fn diffs_show_both_sides() {
    let diff = render_diff("f", &snapshot(None), &snapshot(Some("a\nb")), "before", "after");
    assert_eq!(diff, "--- f (before, missing)\n+++ f (after)\n+a\n+b\n");
    let diff = render_diff("f", &snapshot(Some("a")), &snapshot(Some("a")), "x", "y");
    assert_eq!(diff, "--- f (x)\n+++ f (y)\n(no changes)\n");
    let diff = render_diff("f", &snapshot(Some("a\nb\nc\n")), &snapshot(Some("b\nc\nd\n")), "x", "y");
    assert_eq!(diff, "--- f (x)\n+++ f (y)\n-a\n b\n c\n+d\n");
    assert_eq!(
        restore_action(&snapshot(Some("a")), &snapshot(None)),
        RestoreAction::DeleteCreatedFile
    );
    assert_eq!(
        restore_action(&snapshot(None), &snapshot(Some("a"))),
        RestoreAction::RestorePreviousContent
    );
}

fn summary(id: &str, at: u64) -> RollbackRecordSummary {
    RollbackRecordSummary {
        id: text(id),
        session_id: text("s"),
        turn_index: 0,
        tool_name: text("write"),
        changed_files: vec![],
        created_at_ms: at,
    }
}

#[test]
fn records_are_listed_oldest_first() {
    let all = vec![summary("c", 3), summary("a", 1), summary("d", 3), summary("b", 2)];
    let ids: Vec<String> = sort_records(&all).iter().map(|r| r.id.clone()).collect();
    assert_eq!(ids, vec![text("a"), text("b"), text("c"), text("d")]);
}
