//! Running a shell command.
use vstd::prelude::*;
use crate::measure::{decode_lossy, utf8_lossy};
use crate::tools::tool::{cut_text, truncate_to_bytes, ToolOutput, ToolOutputView};

verus! {

/// How long a command may run where the request does not say.
pub const DEFAULT_TIMEOUT_MS: u64 = 30_000;

/// How many bytes of each output stream are kept where the request does not say.
pub const DEFAULT_MAX_OUTPUT_BYTES: usize = 65_536;

/// The time limit of a command.
pub open spec fn shell_timeout(timeout_ms: Option<u64>) -> u64 {
    match timeout_ms {
        Some(t) => t,
        None => DEFAULT_TIMEOUT_MS,
    }
}

/// The output limit of a command.
pub open spec fn shell_limit(max_output_bytes: Option<usize>) -> usize {
    match max_output_bytes {
        Some(n) => n,
        None => DEFAULT_MAX_OUTPUT_BYTES,
    }
}

/// What is reported of a command that ended, each stream cut to the output limit.
pub open spec fn shell_result(
    status_code: Option<i32>,
    stdout: Seq<char>,
    stderr: Seq<char>,
    timed_out: bool,
    max_output_bytes: Option<usize>,
) -> ToolOutputView {
    let limit = Some(shell_limit(max_output_bytes));
    ToolOutputView::Shell {
        status_code,
        stdout: cut_text(stdout, limit).0,
        stderr: cut_text(stderr, limit).0,
        timed_out,
        stdout_truncated: cut_text(stdout, limit).1,
        stderr_truncated: cut_text(stderr, limit).1,
    }
}

/// The time limit of a command.
pub fn timeout_or_default(timeout_ms: Option<u64>) -> (r: u64)
    ensures
        r == shell_timeout(timeout_ms),
{
    match timeout_ms {
        Some(t) => t,
        None => DEFAULT_TIMEOUT_MS,
    }
}

/// The tool that runs a command.
#[derive(Debug, Default, Clone, Copy)]
pub struct ShellTool;

impl ShellTool {
    /// The name of the tool.
    pub fn name(&self) -> (r: &'static str)
        ensures
            r@ == "shell"@,
    {
        "shell"
    }

    /// Reports a command that ended, given the bytes that it printed.
    pub fn finish(
        &self,
        status_code: Option<i32>,
        stdout: &[u8],
        stderr: &[u8],
        timed_out: bool,
        max_output_bytes: Option<usize>,
    ) -> (r: ToolOutput)
        ensures
            r@ == shell_result(
                status_code,
                utf8_lossy(stdout@),
                utf8_lossy(stderr@),
                timed_out,
                max_output_bytes,
            ),
    {
        let stdout = decode_lossy(stdout);
        let stderr = decode_lossy(stderr);
        self.report(status_code, stdout, stderr, timed_out, max_output_bytes)
    }

    /// Reports a command that ended, given the texts that it printed.
    pub fn report(
        &self,
        status_code: Option<i32>,
        stdout: String,
        stderr: String,
        timed_out: bool,
        max_output_bytes: Option<usize>,
    ) -> (r: ToolOutput)
        ensures
            r@ == shell_result(status_code, stdout@, stderr@, timed_out, max_output_bytes),
    {
        let limit: usize = match max_output_bytes {
            Some(n) => n,
            None => DEFAULT_MAX_OUTPUT_BYTES,
        };
        let (stdout, stdout_truncated) = truncate_to_bytes(stdout, Some(limit));
        let (stderr, stderr_truncated) = truncate_to_bytes(stderr, Some(limit));
        ToolOutput::Shell {
            status_code,
            stdout,
            stderr,
            timed_out,
            stdout_truncated,
            stderr_truncated,
        }
    }
}

} // verus!
