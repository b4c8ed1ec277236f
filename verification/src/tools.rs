//! The tools that work on a workspace: read, write, edit, search and shell.
pub mod edit;
pub mod grep;
pub mod read;
pub mod registry;
pub mod shell;
pub mod tool;
pub mod tool_laws;
pub mod write;
