//! A bidirectional WebSocket session framework: a verified core for the
//! session lifecycle and connection-registry subsystem.
//!
//! The crate models the envelope exchanged over a session, a deterministic
//! byte codec for it, the server-side registry of live connections with
//! broadcast / unicast / exclude-sender delivery, the client-side session
//! state with its reconnect policy, and the per-connection pump decisions.
//! Transport I/O (handshake, socket reads and writes, timers) stays outside;
//! the functions here decide, and their contracts say exactly what they
//! decide.

pub mod client;
pub mod codec;
pub mod command;
pub mod dispatch;
pub mod message;
pub mod registry;
pub mod retry;
pub mod session;
pub mod ws_client_service;
pub mod ws_error;
pub mod ws_message;

pub use client::Client;
pub use command::Command;
pub use dispatch::Server;
pub use message::WebsocketMessage;
