//! Core of a coding agent: sessions, tools, rollback, planning and terminal text.
pub mod agent;
pub mod cli;
pub mod clock;
pub mod context;
pub mod docx;
pub mod docx_laws;
pub mod measure;
pub mod message;
pub mod number;
pub mod order;
pub mod path;
pub mod path_laws;
pub mod provider;
pub mod remote;
pub mod rollback;
pub mod session;
pub mod session_laws;
pub mod store;
pub mod text;
pub mod text_laws;
pub mod tools;
