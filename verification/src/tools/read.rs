//! Reading a file.
use vstd::prelude::*;
use crate::measure::{byte_len, text_len};
use crate::text::owned;
use crate::tools::tool::{
    cut_text, truncate_to_bytes, FileState, FileStateView, ToolError, ToolErrorView, ToolOutput,
    ToolOutputView,
};

verus! {

/// The tool that reads a file.
#[derive(Debug, Default, Clone, Copy)]
pub struct ReadTool;

/// What reading the file at `path` gives, cut to `max_bytes`.
pub open spec fn read_result(
    path: Seq<char>,
    state: FileStateView,
    max_bytes: Option<usize>,
) -> Result<ToolOutputView, ToolErrorView> {
    match state {
        FileStateView::Text { content } => Ok(
            ToolOutputView::Read {
                path,
                content: cut_text(content, max_bytes).0,
                bytes: byte_len(content) as usize,
                truncated: cut_text(content, max_bytes).1,
            },
        ),
        FileStateView::Unreadable { reason } => Err(ToolErrorView::ReadFailed { path, reason }),
        _ => Err(ToolErrorView::ReadTargetNotAFile { path }),
    }
}

impl ReadTool {
    /// The name of the tool.
    pub fn name(&self) -> (r: &'static str)
        ensures
            r@ == "read"@,
    {
        "read"
    }

    /// Reports what was read from `path`.
    pub fn finish(&self, path: &str, state: FileState, max_bytes: Option<usize>) -> (r: Result<
        ToolOutput,
        ToolError,
    >)
        ensures
            match r {
                Ok(output) => read_result(path@, state@, max_bytes) == Ok::<
                    ToolOutputView,
                    ToolErrorView,
                >(output@),
                Err(e) => read_result(path@, state@, max_bytes) == Err::<
                    ToolOutputView,
                    ToolErrorView,
                >(e@),
            },
    {
        match state {
            FileState::Text { content } => {
                let bytes: usize = text_len(content.as_str());
                let (content, truncated) = truncate_to_bytes(content, max_bytes);
                Ok(ToolOutput::Read { path: owned(path), content, bytes, truncated })
            },
            FileState::Unreadable { reason } => Err(
                ToolError::ReadFailed { path: owned(path), reason },
            ),
            _ => Err(ToolError::ReadTargetNotAFile { path: owned(path) }),
        }
    }
}

} // verus!
