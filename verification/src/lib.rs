//! A gateway between an editor front-end and external language-analysis
//! processes speaking the Language Server Protocol.
//!
//! The crate holds the decision logic of the gateway: lifecycle of one
//! analyzer per language, JSON-RPC framing and request/response
//! correlation over a byte stream, per-document text and diagnostics
//! state, and the WebSocket front-end lifecycle with bounded port retry.
//! All I/O (process spawning, pipes, sockets) is performed by the host
//! around this library; the library computes what to do and what to send.

pub mod adapter;
pub mod connection;
pub mod documents;
pub mod errors;
pub mod hover;
pub mod lang;
pub mod logging;
pub mod markdown;
pub mod procinfo;
pub mod projects;
pub mod gateway;
pub mod git;
pub mod registry;
pub mod text;
pub mod types;
