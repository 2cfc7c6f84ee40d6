//! Conversational log-investigation engine: a terminal session state machine,
//! a multi-turn AI tool-calling orchestrator, and adapters that translate one
//! log-query model into the native query forms of several log backends.

pub mod backends;
pub mod cache;
pub mod config;
pub mod elasticsearch;
pub mod engine;
pub mod json;
pub mod kibana;
pub mod level;
pub mod logs;
pub mod mcp;
pub mod openobserve;
pub mod orchestrator;
pub mod providers;
pub mod session;
pub mod text;
pub mod time;
pub mod tools;
