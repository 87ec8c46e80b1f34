//! Verified core logic of the kestrel agent runtime: reply formatting, the
//! channel commands, configuration handling and encryption, provider
//! registration and model discovery, retry policy, sessions and notes,
//! memory, the search tools, sub-agents, the HTTP API's decisions, and the
//! setup wizard's and doctor's decisions.

pub mod text;
pub mod lexical;
pub mod keyed;
pub mod clock;
pub mod pattern;
pub mod paths;
pub mod config;
pub mod config_check;
pub mod documented;
pub mod crypto;
pub mod telegram_format;
pub mod keyboard;
pub mod commands;
pub mod retry;
pub mod registry;
pub mod discovery;
pub mod mock;
pub mod comm_log;
pub mod trace;
pub mod session;
pub mod notes;
pub mod session_index;
pub mod session_search;
pub mod stream_progress;
pub mod memory_rescue;
pub mod memory_config;
pub mod search;
pub mod subagent;
pub mod api;
pub mod setup;
pub mod doctor;
