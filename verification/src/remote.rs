//! Talking to a model by the chat API.
pub mod body;
pub mod chat_laws;
pub mod response;
pub mod stream;
pub mod stream_laws;
