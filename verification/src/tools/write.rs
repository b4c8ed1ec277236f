//! Writing a file.
use vstd::prelude::*;
use crate::measure::{byte_len, text_len};
use crate::text::owned;
use crate::tools::tool::{
    FileState, FileStateView, ToolError, ToolErrorView, ToolOutput, ToolOutputView,
};

verus! {

/// The tool that writes a file.
#[derive(Debug, Default, Clone, Copy)]
pub struct WriteTool;

/// What writing `content` to `path` will report, or why it must not be written.
pub open spec fn write_result(
    path: Seq<char>,
    state: FileStateView,
    content: Seq<char>,
    overwrite: bool,
) -> Result<ToolOutputView, ToolErrorView> {
    let existed = !(state is Missing);
    if state is Directory {
        Err(ToolErrorView::TargetIsDirectory { path })
    } else if existed && !overwrite {
        Err(ToolErrorView::WouldOverwrite { path })
    } else {
        Ok(
            ToolOutputView::Write {
                path,
                bytes: byte_len(content) as usize,
                created: !existed,
                overwritten: existed,
            },
        )
    }
}

impl WriteTool {
    /// The name of the tool.
    pub fn name(&self) -> (r: &'static str)
        ensures
            r@ == "write"@,
    {
        "write"
    }

    /// Decides whether `content` may be written to `path`, where `state` is what stands
    /// there, and what is reported once it is written.
    pub fn plan(&self, path: &str, state: &FileState, content: &str, overwrite: bool) -> (r: Result<
        ToolOutput,
        ToolError,
    >)
        ensures
            match r {
                Ok(output) => write_result(path@, state@, content@, overwrite) == Ok::<
                    ToolOutputView,
                    ToolErrorView,
                >(output@),
                Err(e) => write_result(path@, state@, content@, overwrite) == Err::<
                    ToolOutputView,
                    ToolErrorView,
                >(e@),
            },
    {
        let existed = match state {
            FileState::Missing => false,
            FileState::Directory => {
                return Err(ToolError::TargetIsDirectory { path: owned(path) });
            },
            _ => true,
        };
        if existed && !overwrite {
            return Err(ToolError::WouldOverwrite { path: owned(path) });
        }
        Ok(
            ToolOutput::Write {
                path: owned(path),
                bytes: text_len(content),
                created: !existed,
                overwritten: existed,
            },
        )
    }
}

} // verus!
