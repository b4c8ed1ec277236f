//! The tools that the model is offered.
use vstd::prelude::*;
use crate::agent::window::{build_messages_at, window};
use crate::clock::unix_millis;
use crate::message::message_views;
use crate::provider::{
    definition_views, ParameterType, ProviderRequest, ToolDefinition, ToolDefinitionView,
    ToolParameter, ToolParameterView,
};
use crate::session::{context_of, Session, SessionView};
use crate::text::owned;

verus! {

/// The definition of `read`.
pub open spec fn read_definition() -> ToolDefinitionView {
    ToolDefinitionView {
        name: "read"@,
        description: "Read the contents of any file. Supports absolute paths and paths outside the workspace. Returns the file content as text."@,
        parameters: seq![
            ToolParameterView {
                name: "path"@,
                kind: ParameterType::Text,
                description: "Absolute or relative path to the file to read. Can access files outside the workspace."@,
                required: true,
            },
            ToolParameterView {
                name: "max_bytes"@,
                kind: ParameterType::Integer,
                description: "Maximum number of bytes to read. Omit to read the entire file."@,
                required: false,
            },
        ],
    }
}

/// The definition of `write`.
pub open spec fn write_definition() -> ToolDefinitionView {
    ToolDefinitionView {
        name: "write"@,
        description: "Write content to a file in the workspace. Always set overwrite: true when the file may already exist. If you get a 'refusing to overwrite' error, retry with overwrite: true."@,
        parameters: seq![
            ToolParameterView {
                name: "path"@,
                kind: ParameterType::Text,
                description: "Path to the file to write, relative to the workspace."@,
                required: true,
            },
            ToolParameterView {
                name: "content"@,
                kind: ParameterType::Text,
                description: "The content to write to the file."@,
                required: true,
            },
            ToolParameterView {
                name: "overwrite"@,
                kind: ParameterType::Flag,
                description: "Set to true to overwrite an existing file. Defaults to false."@,
                required: false,
            },
        ],
    }
}

/// The definition of `edit`.
pub open spec fn edit_definition() -> ToolDefinitionView {
    ToolDefinitionView {
        name: "edit"@,
        description: "Replace a unique string in an existing file with new content. The old string must appear exactly once in the file. Use this for precise, surgical edits."@,
        parameters: seq![
            ToolParameterView {
                name: "path"@,
                kind: ParameterType::Text,
                description: "Path to the file to edit, relative to the workspace."@,
                required: true,
            },
            ToolParameterView {
                name: "old"@,
                kind: ParameterType::Text,
                description: "The exact text to replace. Must appear exactly once in the file."@,
                required: true,
            },
            ToolParameterView {
                name: "new"@,
                kind: ParameterType::Text,
                description: "The replacement text."@,
                required: true,
            },
        ],
    }
}

/// The definition of `grep`.
pub open spec fn grep_definition() -> ToolDefinitionView {
    ToolDefinitionView {
        name: "grep"@,
        description: "Search for a regex pattern in any directory. Can search outside the workspace. Returns matching lines with file path, line number, and column."@,
        parameters: seq![
            ToolParameterView {
                name: "pattern"@,
                kind: ParameterType::Text,
                description: "Regular expression pattern to search for."@,
                required: true,
            },
            ToolParameterView {
                name: "path"@,
                kind: ParameterType::Text,
                description: "Optional subdirectory or file path to limit the search scope."@,
                required: false,
            },
            ToolParameterView {
                name: "max_matches"@,
                kind: ParameterType::Integer,
                description: "Maximum number of matches to return. Default is unlimited."@,
                required: false,
            },
        ],
    }
}

/// The definition of `shell`.
pub open spec fn shell_definition() -> ToolDefinitionView {
    ToolDefinitionView {
        name: "shell"@,
        description: "Execute a shell command. Default timeout 15s; for longer tasks, set timeout_ms. Use for build, test, git. NEVER use 'find /' — limit search scope. For find, use 'find <specific_dir>' with -maxdepth."@,
        parameters: seq![
            ToolParameterView {
                name: "command"@,
                kind: ParameterType::Text,
                description: "The shell command to execute."@,
                required: true,
            },
            ToolParameterView {
                name: "timeout_ms"@,
                kind: ParameterType::Integer,
                description: "Timeout in milliseconds (default 15000 = 15s). Use for long operations."@,
                required: false,
            },
            ToolParameterView {
                name: "max_output_bytes"@,
                kind: ParameterType::Integer,
                description: "Maximum bytes of stdout+stderr to capture. Default is unlimited."@,
                required: false,
            },
        ],
    }
}

/// The definition of `read_pdf`.
pub open spec fn read_pdf_definition() -> ToolDefinitionView {
    ToolDefinitionView {
        name: "read_pdf"@,
        description: "Extract and read text content from a PDF file. Supports absolute paths and paths outside the workspace. Use this for reading .pdf files."@,
        parameters: seq![
            ToolParameterView {
                name: "path"@,
                kind: ParameterType::Text,
                description: "Absolute or relative path to the PDF file to read."@,
                required: true,
            },
        ],
    }
}

/// The definition of `read_docx`.
pub open spec fn read_docx_definition() -> ToolDefinitionView {
    ToolDefinitionView {
        name: "read_docx"@,
        description: "Extract and read text content from a .docx (Word) file. Supports absolute paths and paths outside the workspace. Use this for reading .docx files."@,
        parameters: seq![
            ToolParameterView {
                name: "path"@,
                kind: ParameterType::Text,
                description: "Absolute or relative path to the .docx file to read."@,
                required: true,
            },
        ],
    }
}

/// All tools that the model is offered.
pub open spec fn tool_definitions() -> Seq<ToolDefinitionView> {
    seq![
        read_definition(),
        write_definition(),
        edit_definition(),
        grep_definition(),
        shell_definition(),
        read_pdf_definition(),
        read_docx_definition(),
    ]
}

fn parameter(name: &str, kind: ParameterType, description: &str, required: bool) -> (r: ToolParameter)
    ensures
        r@ == (ToolParameterView { name: name@, kind, description: description@, required }),
{
    ToolParameter { name: owned(name), kind, description: owned(description), required }
}

fn define_read() -> (r: ToolDefinition)
    ensures
        r@ == read_definition(),
{
    let mut parameters: Vec<ToolParameter> = Vec::new();
    parameters.push(
        parameter(
            "path",
            ParameterType::Text,
            "Absolute or relative path to the file to read. Can access files outside the workspace.",
            true,
        ),
    );
    parameters.push(
        parameter(
            "max_bytes",
            ParameterType::Integer,
            "Maximum number of bytes to read. Omit to read the entire file.",
            false,
        ),
    );
    let r = ToolDefinition {
        name: owned("read"),
        description: owned(
            "Read the contents of any file. Supports absolute paths and paths outside the workspace. Returns the file content as text.",
        ),
        parameters,
    };
    proof {
        assert(r@.parameters =~= read_definition().parameters);
    }
    r
}

fn define_write() -> (r: ToolDefinition)
    ensures
        r@ == write_definition(),
{
    let mut parameters: Vec<ToolParameter> = Vec::new();
    parameters.push(
        parameter(
            "path",
            ParameterType::Text,
            "Path to the file to write, relative to the workspace.",
            true,
        ),
    );
    parameters.push(
        parameter(
            "content",
            ParameterType::Text,
            "The content to write to the file.",
            true,
        ),
    );
    parameters.push(
        parameter(
            "overwrite",
            ParameterType::Flag,
            "Set to true to overwrite an existing file. Defaults to false.",
            false,
        ),
    );
    let r = ToolDefinition {
        name: owned("write"),
        description: owned(
            "Write content to a file in the workspace. Always set overwrite: true when the file may already exist. If you get a 'refusing to overwrite' error, retry with overwrite: true.",
        ),
        parameters,
    };
    proof {
        assert(r@.parameters =~= write_definition().parameters);
    }
    r
}

fn define_edit() -> (r: ToolDefinition)
    ensures
        r@ == edit_definition(),
{
    let mut parameters: Vec<ToolParameter> = Vec::new();
    parameters.push(
        parameter(
            "path",
            ParameterType::Text,
            "Path to the file to edit, relative to the workspace.",
            true,
        ),
    );
    parameters.push(
        parameter(
            "old",
            ParameterType::Text,
            "The exact text to replace. Must appear exactly once in the file.",
            true,
        ),
    );
    parameters.push(
        parameter(
            "new",
            ParameterType::Text,
            "The replacement text.",
            true,
        ),
    );
    let r = ToolDefinition {
        name: owned("edit"),
        description: owned(
            "Replace a unique string in an existing file with new content. The old string must appear exactly once in the file. Use this for precise, surgical edits.",
        ),
        parameters,
    };
    proof {
        assert(r@.parameters =~= edit_definition().parameters);
    }
    r
}

fn define_grep() -> (r: ToolDefinition)
    ensures
        r@ == grep_definition(),
{
    let mut parameters: Vec<ToolParameter> = Vec::new();
    parameters.push(
        parameter(
            "pattern",
            ParameterType::Text,
            "Regular expression pattern to search for.",
            true,
        ),
    );
    parameters.push(
        parameter(
            "path",
            ParameterType::Text,
            "Optional subdirectory or file path to limit the search scope.",
            false,
        ),
    );
    parameters.push(
        parameter(
            "max_matches",
            ParameterType::Integer,
            "Maximum number of matches to return. Default is unlimited.",
            false,
        ),
    );
    let r = ToolDefinition {
        name: owned("grep"),
        description: owned(
            "Search for a regex pattern in any directory. Can search outside the workspace. Returns matching lines with file path, line number, and column.",
        ),
        parameters,
    };
    proof {
        assert(r@.parameters =~= grep_definition().parameters);
    }
    r
}

fn define_shell() -> (r: ToolDefinition)
    ensures
        r@ == shell_definition(),
{
    let mut parameters: Vec<ToolParameter> = Vec::new();
    parameters.push(
        parameter(
            "command",
            ParameterType::Text,
            "The shell command to execute.",
            true,
        ),
    );
    parameters.push(
        parameter(
            "timeout_ms",
            ParameterType::Integer,
            "Timeout in milliseconds (default 15000 = 15s). Use for long operations.",
            false,
        ),
    );
    parameters.push(
        parameter(
            "max_output_bytes",
            ParameterType::Integer,
            "Maximum bytes of stdout+stderr to capture. Default is unlimited.",
            false,
        ),
    );
    let r = ToolDefinition {
        name: owned("shell"),
        description: owned(
            "Execute a shell command. Default timeout 15s; for longer tasks, set timeout_ms. Use for build, test, git. NEVER use 'find /' — limit search scope. For find, use 'find <specific_dir>' with -maxdepth.",
        ),
        parameters,
    };
    proof {
        assert(r@.parameters =~= shell_definition().parameters);
    }
    r
}

fn define_read_pdf() -> (r: ToolDefinition)
    ensures
        r@ == read_pdf_definition(),
{
    let mut parameters: Vec<ToolParameter> = Vec::new();
    parameters.push(
        parameter(
            "path",
            ParameterType::Text,
            "Absolute or relative path to the PDF file to read.",
            true,
        ),
    );
    let r = ToolDefinition {
        name: owned("read_pdf"),
        description: owned(
            "Extract and read text content from a PDF file. Supports absolute paths and paths outside the workspace. Use this for reading .pdf files.",
        ),
        parameters,
    };
    proof {
        assert(r@.parameters =~= read_pdf_definition().parameters);
    }
    r
}

fn define_read_docx() -> (r: ToolDefinition)
    ensures
        r@ == read_docx_definition(),
{
    let mut parameters: Vec<ToolParameter> = Vec::new();
    parameters.push(
        parameter(
            "path",
            ParameterType::Text,
            "Absolute or relative path to the .docx file to read.",
            true,
        ),
    );
    let r = ToolDefinition {
        name: owned("read_docx"),
        description: owned(
            "Extract and read text content from a .docx (Word) file. Supports absolute paths and paths outside the workspace. Use this for reading .docx files.",
        ),
        parameters,
    };
    proof {
        assert(r@.parameters =~= read_docx_definition().parameters);
    }
    r
}

/// All tools that the model is offered.
pub fn build_tool_definitions() -> (r: Vec<ToolDefinition>)
    ensures
        definition_views(r@) == tool_definitions(),
{
    let mut tools: Vec<ToolDefinition> = Vec::new();
    tools.push(define_read());
    tools.push(define_write());
    tools.push(define_edit());
    tools.push(define_grep());
    tools.push(define_shell());
    tools.push(define_read_pdf());
    tools.push(define_read_docx());
    proof {
        assert(definition_views(tools@) =~= tool_definitions());
    }
    tools
}

/// Whether `request` is what is sent to the model of a session at `now`.
pub open spec fn is_request(request: ProviderRequest, session: SessionView, now: u64) -> bool {
    &&& request.context@ == context_of(session)
    &&& message_views(request.messages@) == window(session.history, now)
    &&& definition_views(request.tools@) == tool_definitions()
}

/// What is sent to the model of a session at `now`.
pub fn build_request_at(session: &Session, now: u64) -> (r: ProviderRequest)
    ensures
        is_request(r, session@, now),
{
    ProviderRequest {
        context: session.context(),
        messages: build_messages_at(session, now),
        tools: build_tool_definitions(),
    }
}

/// What is sent to the model of a session now.
pub fn build_request(session: &Session) -> (r: ProviderRequest)
    ensures
        exists|now: u64| is_request(r, session@, now),
{
    build_request_at(session, unix_millis())
}

} // verus!
