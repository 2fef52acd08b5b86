//! Verified core of a local server that hands coding tasks to an agent.

pub mod agent_bridge;
pub mod agent_loop;
pub mod agent_runtime;
pub mod claude;
pub mod clock;
pub mod commands;
pub mod config;
pub mod counts;
pub mod event_queue;
pub mod job_table;
pub mod jobs;
pub mod json;
pub mod laws;
pub mod logs;
pub mod mcp;
pub mod names;
pub mod order;
pub mod pending_table;
pub mod server;
pub mod sessions;
pub mod state;
pub mod stream;
pub mod text;
pub mod throttle;
pub mod token_usage;
pub mod tools;
pub mod tray;
