//! The agent: what it sends to the model, and what it does with the reply.
pub mod definition_laws;
pub mod definitions;
pub mod history;
pub mod history_laws;
pub mod json;
pub mod json_laws;
pub mod output;
pub mod output_laws;
pub mod prompt;
pub mod request;
pub mod request_laws;
pub mod turn;
pub mod turn_laws;
pub mod window;
