//! Core of a readiness-driven chat-bot reactor: line-protocol sessions with
//! FIFO output queues under backpressure, a keep-alive auto-reply, a
//! declarative reaction interpreter, and a cross-thread action queue.
pub mod action;
pub mod bot_cmd;
pub mod client;
pub mod message;
pub mod msg_ctx;
pub mod reaction;
pub mod session;
pub mod test_module;

pub use client::{Client, ClientHandle, SessionId};
pub use msg_ctx::MessageContext;
pub use reaction::Reaction;
