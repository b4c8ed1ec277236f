//! Replacing a unique piece of a file.
use vstd::prelude::*;
use crate::measure::{byte_len, text_len};
use crate::text::{count, count_occurrences, owned, replace_first, replace_once};
use crate::tools::tool::{
    FileState, FileStateView, ToolError, ToolErrorView, ToolOutput, ToolOutputView,
};

verus! {

/// The tool that edits a file.
#[derive(Debug, Default, Clone, Copy)]
pub struct EditTool;

/// The edited content of the file at `path` and what is reported once it is written, or
/// why the edit is refused: the old text must stand in the file exactly once.
pub open spec fn edit_result(
    path: Seq<char>,
    state: FileStateView,
    old_text: Seq<char>,
    new_text: Seq<char>,
) -> Result<(Seq<char>, ToolOutputView), ToolErrorView> {
    match state {
        FileStateView::Text { content } => {
            let n = count(content, old_text);
            let updated = replace_first(content, old_text, new_text);
            if n == 0 {
                Err(ToolErrorView::OldTextNotFound { path })
            } else if n == 1 {
                Ok(
                    (
                        updated,
                        ToolOutputView::Edit {
                            path,
                            replacements: 1,
                            bytes_before: byte_len(content) as usize,
                            bytes_after: byte_len(updated) as usize,
                        },
                    ),
                )
            } else {
                Err(ToolErrorView::OldTextRepeated { path, count: n as usize })
            }
        },
        FileStateView::Unreadable { reason } => Err(ToolErrorView::ReadFailed { path, reason }),
        _ => Err(ToolErrorView::EditTargetNotAFile { path }),
    }
}

impl EditTool {
    /// The name of the tool.
    pub fn name(&self) -> (r: &'static str)
        ensures
            r@ == "edit"@,
    {
        "edit"
    }

    /// The edited content of the file at `path`, and what is reported once it is written.
    pub fn plan(&self, path: &str, state: &FileState, old_text: &str, new_text: &str) -> (r: Result<
        (String, ToolOutput),
        ToolError,
    >)
        requires
            old_text@.len() > 0,
        ensures
            match r {
                Ok((updated, output)) => edit_result(path@, state@, old_text@, new_text@) == Ok::<
                    (Seq<char>, ToolOutputView),
                    ToolErrorView,
                >((updated@, output@)),
                Err(e) => edit_result(path@, state@, old_text@, new_text@) == Err::<
                    (Seq<char>, ToolOutputView),
                    ToolErrorView,
                >(e@),
            },
    {
        match state {
            FileState::Text { content } => {
                let n: usize = count_occurrences(content.as_str(), old_text);
                if n == 0 {
                    return Err(ToolError::OldTextNotFound { path: owned(path) });
                }
                if n > 1 {
                    return Err(ToolError::OldTextRepeated { path: owned(path), count: n });
                }
                let updated = replace_once(content.as_str(), old_text, new_text);
                let output = ToolOutput::Edit {
                    path: owned(path),
                    replacements: 1,
                    bytes_before: text_len(content.as_str()),
                    bytes_after: text_len(updated.as_str()),
                };
                Ok((updated, output))
            },
            FileState::Unreadable { reason } => Err(
                ToolError::ReadFailed { path: owned(path), reason: reason.clone() },
            ),
            _ => Err(ToolError::EditTargetNotAFile { path: owned(path) }),
        }
    }
}

/// An edit that succeeds replaces one occurrence of the old text and leaves what stands
/// before and after it as it was.
pub proof fn edit_changes_one_place(
    path: Seq<char>,
    content: Seq<char>,
    old_text: Seq<char>,
    new_text: Seq<char>,
)
    requires
        old_text.len() > 0,
        edit_result(path, FileStateView::Text { content }, old_text, new_text) is Ok,
    ensures
        ({
            let updated = (edit_result(path, FileStateView::Text { content }, old_text, new_text)->Ok_0).0;
            exists|before: Seq<char>, after: Seq<char>|
                content == before + old_text + after && updated == #[trigger] (before + new_text
                    + after)
        }),
{
    let i = crate::text::find(content, old_text)->0;
    crate::text::lemma_find_from(content, old_text, 0);
    let before = content.take(i);
    let after = content.skip(i + old_text.len());
    assert(content =~= before + old_text + after);
    assert(replace_first(content, old_text, new_text) == before + new_text + after);
}

} // verus!
